//! Verified text helpers the dispatch core builds on: case folding for
//! plugin names, zero-width-space stripping and literal substring
//! replacement for the bridge rewriter.

use vstd::prelude::*;
use vstd::string::*;

verus! {

/// What `str::to_lowercase` returns for a given character sequence.
pub uninterp spec fn lower_of(s: Seq<char>) -> Seq<char>;

/// Relies on str::to_lowercase: the result depends on the characters alone.
#[verifier::external_body]
pub(crate) fn to_lowercase(s: &str) -> (r: String)
    ensures
        r@ == lower_of(s@),
{
    s.to_lowercase()
}

/// Relies on String::from_iter (through `collect`): the string of exactly
/// these characters, in order.
#[verifier::external_body]
pub(crate) fn chars_to_string(v: Vec<char>) -> (r: String)
    ensures
        r@ == v@,
{
    v.into_iter().collect()
}

/// The characters of a string slice, in order.
pub(crate) fn str_chars(s: &str) -> (r: Vec<char>)
    ensures
        r@ == s@,
{
    let n = s.unicode_len();
    let mut v: Vec<char> = Vec::new();
    let mut i: usize = 0;
    while i < n
        invariant
            0 <= i <= n,
            n == s@.len(),
            v@ == s@.take(i as int),
        decreases n - i,
    {
        let c = s.get_char(i);
        v.push(c);
        proof {
            assert(s@.take(i as int).push(s@[i as int]) =~= s@.take(i as int + 1));
        }
        i = i + 1;
    }
    proof {
        assert(s@.take(n as int) =~= s@);
    }
    v
}

/// The zero width space character bridges insert to defeat nickname pings.
pub open spec fn is_zero_width_space(c: char) -> bool {
    c == '\u{200b}'
}

/// The string with every zero width space removed.
pub fn remove_zero_width_spaces(s: &str) -> (r: String)
    ensures
        r@ == s@.filter(|c: char| !is_zero_width_space(c)),
{
    let chars = str_chars(s);
    let mut out: Vec<char> = Vec::new();
    let mut i: usize = 0;
    proof {
        reveal(Seq::filter);
        assert(s@.take(0).filter(|c: char| !is_zero_width_space(c)) =~= Seq::<char>::empty());
    }
    while i < chars.len()
        invariant
            0 <= i <= chars.len(),
            chars@ == s@,
            out@ == s@.take(i as int).filter(|c: char| !is_zero_width_space(c)),
        decreases chars.len() - i,
    {
        let c = chars[i];
        if c != '\u{200b}' {
            out.push(c);
        }
        proof {
            reveal(Seq::filter);
            let taken = s@.take(i as int + 1);
            assert(taken.drop_last() =~= s@.take(i as int));
            assert(taken.last() == s@[i as int]);
        }
        i = i + 1;
    }
    proof {
        assert(s@.take(chars@.len() as int) =~= s@);
    }
    chars_to_string(out)
}

/// The string with every occurrence of `from` replaced by `to`: occurrences
/// are found left to right and do not overlap.
pub open spec fn spec_replace(s: Seq<char>, from: Seq<char>, to: Seq<char>) -> Seq<char>
    decreases s.len(),
{
    if from.len() == 0 || s.len() < from.len() {
        s
    } else if s.take(from.len() as int) == from {
        to + spec_replace(s.skip(from.len() as int), from, to)
    } else {
        seq![s[0]] + spec_replace(s.drop_first(), from, to)
    }
}

/// Whether `pat` occurs in `s` starting at index `at`.
pub(crate) fn matches_at(s: &Vec<char>, pat: &Vec<char>, at: usize) -> (r: bool)
    requires
        at <= s@.len(),
    ensures
        r == (at + pat@.len() <= s@.len() && s@.subrange(
            at as int,
            at as int + pat@.len(),
        ) == pat@),
{
    let n = s.len();
    if pat.len() > n - at {
        proof {
            assert(at + pat@.len() > s@.len());
        }
        return false;
    }
    let mut j: usize = 0;
    while j < pat.len()
        invariant
            0 <= j <= pat@.len(),
            n == s@.len(),
            at + pat@.len() <= s@.len(),
            forall|k: int| 0 <= k < j ==> s@[at + k] == pat@[k],
        decreases pat.len() - j,
    {
        proof {
            assert(at + j < s@.len());
        }
        if s[at + j] != pat[j] {
            proof {
                assert(s@.subrange(at as int, at as int + pat@.len())[j as int] == s@[at + j]);
            }
            return false;
        }
        j = j + 1;
    }
    proof {
        assert(s@.subrange(at as int, at as int + pat@.len()) =~= pat@);
    }
    true
}

/// Replaces every occurrence of `from` in `s` by `to`, left to right and
/// without overlap, as the bridge rewriter substitutes a derived user name.
/// An empty `from` occurs nowhere and leaves `s` unchanged.
pub fn replace_all(s: &str, from: &str, to: &str) -> (r: String)
    ensures
        r@ == spec_replace(s@, from@, to@),
{
    if from.is_empty() {
        return s.to_owned();
    }
    let sv = str_chars(s);
    let fv = str_chars(from);
    let tv = str_chars(to);
    let mut out: Vec<char> = Vec::new();
    let mut i: usize = 0;
    proof {
        assert(s@.skip(0) =~= s@);
        assert(Seq::<char>::empty() + spec_replace(s@, from@, to@) =~= spec_replace(
            s@,
            from@,
            to@,
        ));
    }
    while i < sv.len()
        invariant
            0 <= i <= sv@.len(),
            sv@ == s@,
            fv@ == from@,
            tv@ == to@,
            from@.len() > 0,
            spec_replace(s@, from@, to@) == out@ + spec_replace(s@.skip(i as int), from@, to@),
        decreases sv.len() - i,
    {
        let ghost rest = s@.skip(i as int);
        if matches_at(&sv, &fv, i) {
            proof {
                assert(rest.take(from@.len() as int) =~= s@.subrange(
                    i as int,
                    i as int + from@.len(),
                ));
                assert(rest.skip(from@.len() as int) =~= s@.skip(i as int + from@.len() as int));
                assert(spec_replace(rest, from@, to@) == to@ + spec_replace(
                    s@.skip(i as int + from@.len() as int),
                    from@,
                    to@,
                ));
                assert(out@ + (to@ + spec_replace(
                    s@.skip(i as int + from@.len() as int),
                    from@,
                    to@,
                )) =~= (out@ + to@) + spec_replace(
                    s@.skip(i as int + from@.len() as int),
                    from@,
                    to@,
                ));
            }
            let ghost out0 = out@;
            let mut j: usize = 0;
            proof {
                assert(out0 + tv@.take(0) =~= out0);
            }
            while j < tv.len()
                invariant
                    0 <= j <= tv@.len(),
                    tv@ == to@,
                    out@ == out0 + tv@.take(j as int),
                decreases tv.len() - j,
            {
                out.push(tv[j]);
                proof {
                    assert(out0 + tv@.take(j as int).push(tv@[j as int]) =~= out0 + tv@.take(
                        j as int + 1,
                    ));
                }
                j = j + 1;
            }
            proof {
                assert(out0 + tv@.take(tv@.len() as int) =~= out0 + to@);
            }
            i = i + fv.len();
        } else {
            proof {
                if rest.len() >= from@.len() {
                    assert(rest.take(from@.len() as int) =~= s@.subrange(
                        i as int,
                        i as int + from@.len(),
                    ));
                    assert(rest.drop_first() =~= s@.skip(i as int + 1));
                    assert(rest[0] == s@[i as int]);
                    assert(spec_replace(rest, from@, to@) == seq![s@[i as int]] + spec_replace(
                        s@.skip(i as int + 1),
                        from@,
                        to@,
                    ));
                } else {
                    // too little is left for a further occurrence
                    assert(rest =~= seq![s@[i as int]] + s@.skip(i as int + 1));
                    assert(s@.skip(i as int + 1).len() < from@.len());
                    assert(spec_replace(rest, from@, to@) == rest);
                    assert(spec_replace(s@.skip(i as int + 1), from@, to@) == s@.skip(i as int + 1));
                }
                assert(out@ + (seq![s@[i as int]] + spec_replace(s@.skip(i as int + 1), from@, to@))
                    =~= out@.push(s@[i as int]) + spec_replace(s@.skip(i as int + 1), from@, to@));
            }
            out.push(sv[i]);
            i = i + 1;
        }
    }
    proof {
        assert(s@.skip(sv@.len() as int) =~= Seq::<char>::empty());
        assert(out@ + Seq::<char>::empty() =~= out@);
    }
    chars_to_string(out)
}

} // verus!
