//! Output formatting decisions: filename prefixes, count lines, and the full
//! list of strings printed for one file target.

use vstd::prelude::*;
use vstd::seq_lib::*;
use vstd::string::*;

verus! {

/// The text printed for one value: prefixed with `<filename>:` exactly when
/// more than one file target is in play.
pub open spec fn spec_output(filename: Seq<char>, value: Seq<char>, num_files: nat) -> Seq<char> {
    if num_files > 1 {
        filename + ":"@ + value
    } else {
        value
    }
}

/// Formats one output value for a file, prefixing it with the filename when
/// the run has more than one file target.
pub fn format_output(filename: &str, value: &str, num_files: usize) -> (r: String)
    ensures
        r@ == spec_output(filename@, value@, num_files as nat),
{
    if num_files > 1 {
        let mut s = filename.to_owned();
        s.append(":");
        s.append(value);
        s
    } else {
        value.to_owned()
    }
}

/// The decimal digit character for `d` (a value below ten).
pub open spec fn digit_char(d: nat) -> char {
    if d == 0 {
        '0'
    } else if d == 1 {
        '1'
    } else if d == 2 {
        '2'
    } else if d == 3 {
        '3'
    } else if d == 4 {
        '4'
    } else if d == 5 {
        '5'
    } else if d == 6 {
        '6'
    } else if d == 7 {
        '7'
    } else if d == 8 {
        '8'
    } else {
        '9'
    }
}

/// The decimal digits of `n`, most significant first, without leading zeros
/// (zero itself is the single digit `0`).
pub open spec fn spec_decimal(n: nat) -> Seq<char>
    decreases n,
{
    if n < 10 {
        seq![digit_char(n)]
    } else {
        spec_decimal(n / 10) + seq![digit_char(n % 10)]
    }
}

/// Renders one decimal digit.
fn digit_string(d: usize) -> (r: String)
    requires
        d < 10,
    ensures
        r@ == seq![digit_char(d as nat)],
{
    proof {
        reveal_strlit("0");
        reveal_strlit("1");
        reveal_strlit("2");
        reveal_strlit("3");
        reveal_strlit("4");
        reveal_strlit("5");
        reveal_strlit("6");
        reveal_strlit("7");
        reveal_strlit("8");
        reveal_strlit("9");
    }
    let s = if d == 0 {
        "0"
    } else if d == 1 {
        "1"
    } else if d == 2 {
        "2"
    } else if d == 3 {
        "3"
    } else if d == 4 {
        "4"
    } else if d == 5 {
        "5"
    } else if d == 6 {
        "6"
    } else if d == 7 {
        "7"
    } else if d == 8 {
        "8"
    } else {
        "9"
    };
    proof {
        assert(s@ =~= seq![digit_char(d as nat)]);
    }
    s.to_owned()
}

/// Renders `n` in decimal.
pub fn usize_string(n: usize) -> (r: String)
    ensures
        r@ == spec_decimal(n as nat),
    decreases n,
{
    if n < 10 {
        digit_string(n)
    } else {
        let mut s = usize_string(n / 10);
        let d = digit_string(n % 10);
        s.append(d.as_str());
        s
    }
}

/// One count-mode output value: the count in decimal, newline-terminated.
pub fn count_line(n: usize) -> (r: String)
    ensures
        r@ == spec_decimal(n as nat) + "\n"@,
{
    let mut s = usize_string(n);
    s.append("\n");
    s
}

/// Everything printed for one file target whose matched lines are `matched`:
/// in count mode a single newline-terminated count, otherwise each matched
/// line verbatim, in order — each through the filename-prefix rule.
pub open spec fn spec_target_output(
    filename: Seq<char>,
    matched: Seq<Seq<char>>,
    count: bool,
    num_files: nat,
) -> Seq<Seq<char>> {
    if count {
        seq![spec_output(filename, spec_decimal(matched.len()) + "\n"@, num_files)]
    } else {
        matched.map_values(|l: Seq<char>| spec_output(filename, l, num_files))
    }
}

/// Renders everything printed for one file target: the match count in count
/// mode, otherwise the matched lines themselves, each prefixed with the
/// filename when more than one file target is in play.
#[verifier::loop_isolation(false)]
pub fn target_output(filename: &str, matched: &Vec<String>, count: bool, num_files: usize) -> (r:
    Vec<String>)
    ensures
        r@.map_values(|s: String| s@) == spec_target_output(
            filename@,
            matched@.map_values(|l: String| l@),
            count,
            num_files as nat,
        ),
{
    let ghost fs = |s: String| s@;
    let ghost mm = matched@.map_values(fs);
    let ghost gm = |l: Seq<char>| spec_output(filename@, l, num_files as nat);
    let mut out: Vec<String> = Vec::new();
    if count {
        let value = count_line(matched.len());
        let line = format_output(filename, value.as_str(), num_files);
        proof {
            out@.lemma_push_map_commute(fs, line);
        }
        out.push(line);
        proof {
            assert(out@.map_values(fs) =~= seq![
                spec_output(filename@, spec_decimal(mm.len()) + "\n"@, num_files as nat),
            ]);
        }
    } else {
        let mut i: usize = 0;
        proof {
            assert(out@.map_values(fs) =~= mm.take(0).map_values(gm));
        }
        while i < matched.len()
            invariant
                i <= matched@.len(),
                out@.map_values(fs) == mm.take(i as int).map_values(gm),
            decreases matched@.len() - i,
        {
            let line = format_output(filename, matched[i].as_str(), num_files);
            let ghost out0 = out@;
            proof {
                out0.lemma_push_map_commute(fs, line);
                mm.lemma_map_take_succ(gm, i as int);
            }
            out.push(line);
            proof {
                assert(out@.map_values(fs) =~= mm.take(i + 1).map_values(gm));
            }
            i = i + 1;
        }
        proof {
            assert(mm.take(matched@.len() as int) =~= mm);
        }
    }
    out
}

} // verus!
