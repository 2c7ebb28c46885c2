//! The line splitter: raw text to an ordered sequence of lines.
//!
//! Lines end at `'\n'` or at `"\r\n"`, and the terminator is stripped.  The
//! piece after the last terminator is kept verbatim, so text that ends with
//! a terminator ends with one extra empty line: the legacy convention reads
//! a trailing terminator as opening a new, still empty line.  Empty text
//! yields no lines at all.

use vstd::prelude::*;
use vstd::string::StrSliceExecFns;

verus! {

/// The pieces of `s`: they end at `'\n'`, a `'\r'` standing immediately
/// before a `'\n'` is stripped with it, and the piece after the last
/// terminator is kept verbatim.  There is always at least one piece; text
/// ending in a terminator ends in an empty piece.
pub open spec fn split_rec(s: Seq<char>) -> Seq<Seq<char>>
    decreases s.len(),
{
    if s.len() == 0 {
        seq![Seq::<char>::empty()]
    } else if s[0] == '\n' {
        seq![Seq::<char>::empty()] + split_rec(s.skip(1))
    } else if s[0] == '\r' && s.len() >= 2 && s[1] == '\n' {
        seq![Seq::<char>::empty()] + split_rec(s.skip(2))
    } else {
        let rest = split_rec(s.skip(1));
        seq![seq![s[0]] + rest[0]] + rest.skip(1)
    }
}

/// The lines of `s`: no lines for empty text, otherwise the pieces of
/// `split_rec`.
pub open spec fn split_spec(s: Seq<char>) -> Seq<Seq<char>> {
    if s.len() == 0 {
        Seq::<Seq<char>>::empty()
    } else {
        split_rec(s)
    }
}

/// The lines joined back together with a single `'\n'` between neighbours.
pub open spec fn join_lines(ls: Seq<Seq<char>>) -> Seq<char>
    decreases ls.len(),
{
    if ls.len() == 0 {
        Seq::<char>::empty()
    } else if ls.len() == 1 {
        ls[0]
    } else {
        ls[0] + seq!['\n'] + join_lines(ls.skip(1))
    }
}

/// Text with no Windows-style terminator: no `'\r'` directly before a `'\n'`.
pub open spec fn crlf_free(s: Seq<char>) -> bool {
    forall|i: int| 0 <= i < s.len() - 1 ==> !((#[trigger] s[i]) == '\r' && s[i + 1] == '\n')
}

/// Splitting yields at least one piece.
pub proof fn lemma_split_rec_len(s: Seq<char>)
    ensures
        split_rec(s).len() >= 1,
    decreases s.len(),
{
    if s.len() == 0 {
    } else if s[0] == '\n' {
        lemma_split_rec_len(s.skip(1));
    } else if s[0] == '\r' && s.len() >= 2 && s[1] == '\n' {
        lemma_split_rec_len(s.skip(2));
    } else {
        lemma_split_rec_len(s.skip(1));
    }
}

/// Text holding a `'\n'` splits into at least two pieces.
proof fn lemma_newline_makes_two(s: Seq<char>)
    requires
        s.contains('\n'),
    ensures
        split_rec(s).len() >= 2,
    decreases s.len(),
{
    if s.len() == 0 {
    } else if s[0] == '\n' {
        lemma_split_rec_len(s.skip(1));
    } else if s[0] == '\r' && s.len() >= 2 && s[1] == '\n' {
        lemma_split_rec_len(s.skip(2));
    } else {
        let j = choose|j: int| 0 <= j < s.len() && s[j] == '\n';
        assert(s.skip(1)[j - 1] == '\n');
        assert(s.skip(1).contains('\n'));
        lemma_newline_makes_two(s.skip(1));
        lemma_split_rec_len(s.skip(1));
    }
}

/// A suffix of CRLF-free text is CRLF-free.
proof fn lemma_crlf_free_skip(s: Seq<char>, k: int)
    requires
        crlf_free(s),
        0 <= k <= s.len(),
    ensures
        crlf_free(s.skip(k)),
{
    assert forall|i: int|
        0 <= i < s.skip(k).len() - 1 implies !((#[trigger] s.skip(k)[i]) == '\r' && s.skip(
        k,
    )[i + 1] == '\n') by {
        assert(s.skip(k)[i] == s[k + i]);
        assert(s.skip(k)[i + 1] == s[k + i + 1]);
    }
}

/// Prepending terminator-free text extends the first piece and leaves the
/// later pieces alone.
proof fn lemma_split_prepend(p: Seq<char>, t: Seq<char>)
    requires
        forall|j: int| 0 <= j < p.len() ==> (#[trigger] p[j]) != '\n',
        !(p.len() > 0 && p.last() == '\r' && t.len() > 0 && t[0] == '\n'),
    ensures
        split_rec(p + t) == seq![p + split_rec(t)[0]] + split_rec(t).skip(1),
    decreases p.len(),
{
    lemma_split_rec_len(t);
    if p.len() == 0 {
        assert(p + t =~= t);
        assert(p + split_rec(t)[0] =~= split_rec(t)[0]);
        assert(seq![p + split_rec(t)[0]] + split_rec(t).skip(1) =~= split_rec(t));
    } else {
        let c = p[0];
        let p2 = p.skip(1);
        let s = p + t;
        assert(s[0] == c);
        assert(s.skip(1) =~= p2 + t);
        if p2.len() > 0 {
            assert(p2.last() == p.last());
        }
        lemma_split_prepend(p2, t);
        let rest = split_rec(p2 + t);
        lemma_split_rec_len(p2 + t);
        // the head of `s` is no terminator start
        assert(c != '\n');
        if c == '\r' && s.len() >= 2 {
            if p.len() >= 2 {
                assert(s[1] == p[1]);
                assert(p[1] != '\n');
            } else {
                assert(s[1] == t[0]);
                assert(p.last() == c);
                assert(t[0] != '\n');
            }
        }
        assert(split_rec(s) == seq![seq![c] + rest[0]] + rest.skip(1));
        let t0 = split_rec(t)[0];
        assert(rest[0] == p2 + t0);
        assert(rest.skip(1) =~= split_rec(t).skip(1));
        assert(seq![c] + rest[0] =~= p + t0);
        assert(seq![seq![c] + rest[0]] + rest.skip(1) =~= seq![p + t0] + split_rec(t).skip(1));
    }
}

/// Splitting then rejoining the pieces with `'\n'` reproduces the text: the
/// extra empty piece that a trailing terminator yields is exactly what the
/// rejoin consumes to restore that terminator.
proof fn lemma_join_split_rec(s: Seq<char>)
    requires
        crlf_free(s),
    ensures
        join_lines(split_rec(s)) == s,
    decreases s.len(),
{
    lemma_split_rec_len(s);
    if s.len() == 0 {
        assert(join_lines(seq![Seq::<char>::empty()]) =~= s);
    } else if s[0] == '\n' {
        lemma_crlf_free_skip(s, 1);
        lemma_join_split_rec(s.skip(1));
        lemma_split_rec_len(s.skip(1));
        let r = split_rec(s.skip(1));
        let w = seq![Seq::<char>::empty()] + r;
        assert(w.len() >= 2);
        assert(w[0] =~= Seq::<char>::empty());
        assert(w.skip(1) =~= r);
        assert(join_lines(w) == w[0] + seq!['\n'] + join_lines(r));
        assert(w[0] + seq!['\n'] + join_lines(r) =~= seq!['\n'] + s.skip(1));
        assert(seq!['\n'] + s.skip(1) =~= s);
    } else if s[0] == '\r' && s.len() >= 2 && s[1] == '\n' {
        assert(!(s[0] == '\r' && s[1int] == '\n'));
        assert(false);
    } else {
        lemma_crlf_free_skip(s, 1);
        let t = s.skip(1);
        lemma_join_split_rec(t);
        lemma_split_rec_len(t);
        let r = split_rec(t);
        let w = seq![seq![s[0]] + r[0]] + r.skip(1);
        assert(split_rec(s) == w);
        if r.len() == 1 {
            assert(w.len() == 1);
            assert(join_lines(w) == w[0]);
            assert(join_lines(r) == r[0]);
            assert(w[0] =~= seq![s[0]] + join_lines(r));
            assert(seq![s[0]] + t =~= s);
        } else {
            assert(w.len() >= 2);
            assert(w[0] == seq![s[0]] + r[0]);
            assert(w.skip(1) =~= r.skip(1));
            assert(join_lines(w) == w[0] + seq!['\n'] + join_lines(r.skip(1)));
            assert(join_lines(r) == r[0] + seq!['\n'] + join_lines(r.skip(1)));
            assert(w[0] + seq!['\n'] + join_lines(r.skip(1)) =~= seq![s[0]] + (r[0] + seq!['\n']
                + join_lines(r.skip(1))));
            assert(seq![s[0]] + join_lines(r) =~= seq![s[0]] + t);
            assert(seq![s[0]] + t =~= s);
        }
    }
}

/// For any text free of `"\r\n"`, splitting and rejoining with the line
/// terminator reproduces the text byte for byte.
pub proof fn lemma_split_join_round_trip(s: Seq<char>)
    requires
        crlf_free(s),
    ensures
        join_lines(split_spec(s)) == s,
{
    if s.len() == 0 {
        assert(join_lines(split_spec(s)) =~= s);
    } else {
        lemma_join_split_rec(s);
    }
}

proof fn lemma_trailing_rec(s: Seq<char>)
    requires
        s.len() > 0,
    ensures
        split_rec(s).last().len() == 0 <==> s.last() == '\n',
    decreases s.len(),
{
    lemma_split_rec_len(s);
    if s[0] == '\n' {
        let u = s.skip(1);
        let r = split_rec(u);
        lemma_split_rec_len(u);
        assert(split_rec(s).last() == r.last());
        if u.len() == 0 {
            assert(r =~= seq![Seq::<char>::empty()]);
            assert(s.last() == '\n');
        } else {
            lemma_trailing_rec(u);
            assert(s.last() == u.last());
        }
    } else if s[0] == '\r' && s.len() >= 2 && s[1] == '\n' {
        let u = s.skip(2);
        let r = split_rec(u);
        lemma_split_rec_len(u);
        assert(split_rec(s).last() == r.last());
        if u.len() == 0 {
            assert(r =~= seq![Seq::<char>::empty()]);
            assert(s.last() == '\n');
        } else {
            lemma_trailing_rec(u);
            assert(s.last() == u.last());
        }
    } else {
        let t = s.skip(1);
        let r = split_rec(t);
        lemma_split_rec_len(t);
        let w = seq![seq![s[0]] + r[0]] + r.skip(1);
        assert(split_rec(s) == w);
        if t.len() == 0 {
            assert(r =~= seq![Seq::<char>::empty()]);
            assert(w =~= seq![seq![s[0]] + r[0]]);
            assert(w.last() == seq![s[0]] + r[0]);
            assert(w.last().len() >= 1);
            assert(s.last() == s[0]);
        } else {
            lemma_trailing_rec(t);
            assert(s.last() == t.last());
            if r.len() == 1 {
                if t.contains('\n') {
                    lemma_newline_makes_two(t);
                    assert(false);
                }
                assert(t[t.len() - 1] != '\n');
                assert(w.len() == 1);
                assert(w.last() == seq![s[0]] + r[0]);
                assert(w.last().len() >= 1);
            } else {
                assert(w.last() == r.last());
            }
        }
    }
}

/// A non-empty text ends with a line terminator exactly when its lines end
/// with an extra empty line.
pub proof fn lemma_trailing_terminator(s: Seq<char>)
    requires
        s.len() > 0,
    ensures
        split_spec(s).len() >= 1,
        split_spec(s).last().len() == 0 <==> s.last() == '\n',
{
    lemma_split_rec_len(s);
    lemma_trailing_rec(s);
}

/// The characters of `s`, decoded in order into an indexable vector.
pub fn chars_of(s: &str) -> (r: Vec<char>)
    ensures
        r@ == s@,
{
    let n: usize = s.unicode_len();
    let mut out: Vec<char> = Vec::new();
    let mut i: usize = 0;
    proof {
        assert(out@ =~= s@.subrange(0, 0));
    }
    while i < n
        invariant
            s@.len() == n,
            i <= n,
            out@ == s@.subrange(0, i as int),
        decreases n - i,
    {
        let c = s.get_char(i);
        out.push(c);
        proof {
            assert(out@ =~= s@.subrange(0, i as int + 1));
        }
        i = i + 1;
    }
    proof {
        assert(out@ =~= s@);
    }
    out
}

/// Split text into its lines, exactly as `split_spec` describes.
pub fn split_content(s: &str) -> (r: Vec<String>)
    ensures
        r.deep_view() == split_spec(s@),
{
    let n: usize = s.unicode_len();
    let mut out: Vec<String> = Vec::new();
    if n == 0 {
        proof {
            assert(out.deep_view() =~= split_spec(s@));
        }
        return out;
    }
    let mut start: usize = 0;
    let mut i: usize = 0;
    proof {
        assert(out.deep_view() =~= Seq::<Seq<char>>::empty());
        assert(s@.skip(0) =~= s@);
        assert(out.deep_view() + split_rec(s@) =~= split_rec(s@));
    }
    while i < n
        invariant
            s@.len() == n,
            0 <= start as int <= i as int <= n as int,
            forall|j: int| start as int <= j < i as int ==> (#[trigger] s@[j]) != '\n',
            out.deep_view() + split_rec(s@.skip(start as int)) == split_rec(s@),
        decreases n - i,
    {
        let c = s.get_char(i);
        if c == '\n' {
            let piece_end: usize = if i > start && s.get_char(i - 1) == '\r' {
                i - 1
            } else {
                i
            };
            let piece = s.substring_char(start, piece_end).to_owned();
            let ghost sk = s@.skip(start as int);
            let ghost p = s@.subrange(start as int, piece_end as int);
            let ghost tail = s@.skip(piece_end as int);
            let ghost r2 = split_rec(s@.skip(i as int + 1));
            let ghost prev = out.deep_view();
            proof {
                assert(sk =~= p + tail);
                assert forall|j: int| 0 <= j < p.len() implies (#[trigger] p[j]) != '\n' by {
                    assert(p[j] == s@[start as int + j]);
                }
                if piece_end < i {
                    assert(tail[0] == s@[i as int - 1]);
                    assert(tail[0] == '\r');
                } else {
                    assert(tail[0] == s@[i as int]);
                    assert(tail[0] == '\n');
                    if p.len() > 0 {
                        assert(p.last() == s@[i as int - 1]);
                        assert(p.last() != '\r');
                    }
                }
                lemma_split_prepend(p, tail);
                // the remainder starts with the terminator just found
                if piece_end < i {
                    assert(tail[1] == s@[i as int]);
                    assert(tail[0] == '\r' && tail.len() >= 2 && tail[1] == '\n');
                    assert(tail.skip(2) =~= s@.skip(i as int + 1));
                    assert(split_rec(tail) == seq![Seq::<char>::empty()] + r2);
                } else {
                    assert(tail[0] == '\n');
                    assert(tail.skip(1) =~= s@.skip(i as int + 1));
                    assert(split_rec(tail) == seq![Seq::<char>::empty()] + r2);
                }
                lemma_split_rec_len(s@.skip(i as int + 1));
                assert(split_rec(tail)[0] =~= Seq::<char>::empty());
                assert(split_rec(tail).skip(1) =~= r2);
                assert(p + split_rec(tail)[0] =~= p);
                assert(split_rec(sk) =~= seq![p] + r2);
            }
            out.push(piece);
            proof {
                assert(out.deep_view() =~= prev.push(p));
                assert(prev + split_rec(sk) =~= (prev.push(p)) + r2);
                assert(out.deep_view() + r2 =~= split_rec(s@));
            }
            start = i + 1;
        }
        i = i + 1;
    }
    let piece = s.substring_char(start, n).to_owned();
    let ghost sk = s@.skip(start as int);
    let ghost p = s@.subrange(start as int, n as int);
    let ghost prev = out.deep_view();
    proof {
        let tail = s@.skip(n as int);
        assert(tail =~= Seq::<char>::empty());
        assert(sk =~= p + tail);
        assert forall|j: int| 0 <= j < p.len() implies (#[trigger] p[j]) != '\n' by {
            assert(p[j] == s@[start as int + j]);
        }
        lemma_split_prepend(p, tail);
        assert(split_rec(tail) =~= seq![Seq::<char>::empty()]);
        assert(p + split_rec(tail)[0] =~= p);
        assert(split_rec(tail).skip(1) =~= Seq::<Seq<char>>::empty());
        assert(split_rec(sk) =~= seq![p]);
    }
    out.push(piece);
    proof {
        assert(out.deep_view() =~= prev.push(p));
        assert(prev.push(p) =~= prev + seq![p]);
        assert(out.deep_view() =~= split_rec(s@));
    }
    out
}

} // verus!
