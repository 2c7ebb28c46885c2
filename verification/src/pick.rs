//! Uniform random choice over in-memory line sequences.

use rand::RngExt;
use vstd::prelude::*;

verus! {

/// Relies on rand's random_range: a uniformly drawn index below `n`, from
/// the calling thread's generator.  Which index comes out is promised by
/// nothing; only its range is.
#[verifier::external_body]
pub(crate) fn pick_index(n: usize) -> (r: usize)
    requires
        n > 0,
    ensures
        r < n,
{
    rand::rng().random_range(0..n)
}

/// Relies on String::push: appends one character to the text.
pub assume_specification[ String::push ](s: &mut String, c: char)
    ensures
        final(s)@ == old(s)@.push(c),
;

/// One character as owned text.
pub fn char_text(c: char) -> (r: String)
    ensures
        r@ == seq![c],
{
    let mut s = String::new();
    s.push(c);
    proof {
        assert(s@ =~= seq![c]);
    }
    s
}

/// A uniformly chosen line, cloned out of the shared sequence; absent
/// exactly when there are no lines.
pub fn pick_line(lines: &Vec<String>) -> (r: Option<String>)
    ensures
        (match r {
            Option::Some(l) => lines.deep_view().contains(l@),
            Option::None => lines.deep_view().len() == 0,
        }),
{
    if lines.len() == 0 {
        Option::None
    } else {
        let i = pick_index(lines.len());
        let l = lines[i].clone();
        proof {
            assert(lines.deep_view()[i as int] == l@);
            assert(lines.deep_view().contains(l@));
        }
        Option::Some(l)
    }
}

/// A uniformly chosen character of a uniformly chosen line; absent when
/// there are no lines at all or when the chosen line is empty.
pub fn pick_char(lines: &Vec<String>) -> (r: Option<char>)
    ensures
        (match r {
            Option::Some(ch) => exists|i: int|
                0 <= i < lines.deep_view().len() && (#[trigger] lines.deep_view()[i]).contains(ch),
            Option::None => lines.deep_view().len() == 0 || exists|i: int|
                0 <= i < lines.deep_view().len() && (#[trigger] lines.deep_view()[i]).len() == 0,
        }),
        lines.deep_view().len() == 0 ==> r is None,
{
    match pick_line(lines) {
        Option::None => Option::None,
        Option::Some(line) => {
            let cs = crate::split::chars_of(line.as_str());
            let ghost dv = lines.deep_view();
            let ghost w = choose|i: int| 0 <= i < dv.len() && dv[i] == line@;
            if cs.len() == 0 {
                proof {
                    assert(dv[w].len() == 0);
                }
                Option::None
            } else {
                let j = pick_index(cs.len());
                let ch = cs[j];
                proof {
                    assert(line@[j as int] == ch);
                    assert(dv[w].contains(ch));
                }
                Option::Some(ch)
            }
        },
    }
}

} // verus!
