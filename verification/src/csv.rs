//! CSV rendering of a batch and its inverse.
//!
//! Every field is double-quote-enclosed. Quotes inside the title are
//! escaped by a backslash prefix; quotes inside the body are escaped by
//! doubling. The asymmetry is kept on purpose for compatibility with
//! previously written files.

use vstd::prelude::*;

verus! {

/// Relies on String::push: appends one character at the end.
#[verifier::external_body]
pub(crate) fn push_char(out: &mut String, c: char)
    ensures
        final(out)@ == old(out)@.push(c),
{
    out.push(c);
}

/// The characters of `s`, as a vector.
pub fn chars_vec(s: &str) -> (r: Vec<char>)
    ensures
        r@ == s@,
{
    let mut r: Vec<char> = Vec::new();
    for c in it: s.chars()
        invariant
            r@ == it.seq().subrange(0, it.index() as int),
            it.seq() == s@,
    {
        r.push(c);
    }
    proof {
        assert(r@ =~= s@);
    }
    r
}

/// The decimal digit `d` as a character.
pub open spec fn spec_digit(d: int) -> char {
    if d == 0 {
        '0'
    } else if d == 1 {
        '1'
    } else if d == 2 {
        '2'
    } else if d == 3 {
        '3'
    } else if d == 4 {
        '4'
    } else if d == 5 {
        '5'
    } else if d == 6 {
        '6'
    } else if d == 7 {
        '7'
    } else if d == 8 {
        '8'
    } else {
        '9'
    }
}

/// The usual decimal rendering of `n`, most significant digit first,
/// without leading zeros (a lone `0` for zero).
pub open spec fn spec_decimal(n: nat) -> Seq<char>
    decreases n,
{
    if n < 10 {
        seq![spec_digit(n as int)]
    } else {
        spec_decimal(n / 10).push(spec_digit((n % 10) as int))
    }
}

fn digit_char(d: u64) -> (c: char)
    requires
        d < 10,
    ensures
        c == spec_digit(d as int),
{
    if d == 0 {
        '0'
    } else if d == 1 {
        '1'
    } else if d == 2 {
        '2'
    } else if d == 3 {
        '3'
    } else if d == 4 {
        '4'
    } else if d == 5 {
        '5'
    } else if d == 6 {
        '6'
    } else if d == 7 {
        '7'
    } else if d == 8 {
        '8'
    } else {
        '9'
    }
}

/// Appends the decimal rendering of `n` to `out`.
pub fn append_decimal(out: &mut String, n: u64)
    ensures
        final(out)@ == old(out)@ + spec_decimal(n as nat),
    decreases n,
{
    if n < 10 {
        push_char(out, digit_char(n));
        proof {
            assert(final(out)@ =~= old(out)@ + spec_decimal(n as nat));
        }
    } else {
        append_decimal(out, n / 10);
        push_char(out, digit_char(n % 10));
        proof {
            assert(final(out)@ =~= old(out)@ + spec_decimal(n as nat));
        }
    }
}

/// How one title character is rendered: a quote gains a backslash prefix.
pub open spec fn spec_escape_char_title(c: char) -> Seq<char> {
    if c == '"' {
        seq!['\\', '"']
    } else {
        seq![c]
    }
}

/// How one body character is rendered: a quote is doubled.
pub open spec fn spec_escape_char_body(c: char) -> Seq<char> {
    if c == '"' {
        seq!['"', '"']
    } else {
        seq![c]
    }
}

/// The title field's rendering: each quote backslash-escaped.
pub open spec fn spec_escape_title(s: Seq<char>) -> Seq<char>
    decreases s.len(),
{
    if s.len() == 0 {
        Seq::empty()
    } else {
        spec_escape_char_title(s[0]) + spec_escape_title(s.drop_first())
    }
}

/// The body field's rendering: each quote doubled.
pub open spec fn spec_escape_body(s: Seq<char>) -> Seq<char>
    decreases s.len(),
{
    if s.len() == 0 {
        Seq::empty()
    } else {
        spec_escape_char_body(s[0]) + spec_escape_body(s.drop_first())
    }
}

proof fn lemma_escape_title_push(s: Seq<char>, c: char)
    ensures
        spec_escape_title(s.push(c)) == spec_escape_title(s) + spec_escape_char_title(c),
    decreases s.len(),
{
    if s.len() == 0 {
        assert(s.push(c).drop_first() =~= Seq::<char>::empty());
        assert(s.push(c)[0] == c);
        assert(spec_escape_title(Seq::<char>::empty()) == Seq::<char>::empty());
        assert(spec_escape_title(s.push(c)) =~= spec_escape_title(s) + spec_escape_char_title(c));
    } else {
        assert(s.push(c).drop_first() =~= s.drop_first().push(c));
        lemma_escape_title_push(s.drop_first(), c);
        assert(s.push(c)[0] == s[0]);
        assert(spec_escape_title(s.push(c)) == spec_escape_char_title(s[0]) + spec_escape_title(
            s.drop_first().push(c),
        ));
        assert(spec_escape_title(s) == spec_escape_char_title(s[0]) + spec_escape_title(
            s.drop_first(),
        ));
        assert((spec_escape_char_title(s[0]) + (spec_escape_title(s.drop_first())
            + spec_escape_char_title(c))) =~= ((spec_escape_char_title(s[0]) + spec_escape_title(
            s.drop_first(),
        )) + spec_escape_char_title(c)));
        assert(spec_escape_title(s.push(c)) =~= spec_escape_title(s) + spec_escape_char_title(c));
    }
}

proof fn lemma_escape_body_push(s: Seq<char>, c: char)
    ensures
        spec_escape_body(s.push(c)) == spec_escape_body(s) + spec_escape_char_body(c),
    decreases s.len(),
{
    if s.len() == 0 {
        assert(s.push(c).drop_first() =~= Seq::<char>::empty());
        assert(s.push(c)[0] == c);
        assert(spec_escape_body(Seq::<char>::empty()) == Seq::<char>::empty());
        assert(spec_escape_body(s.push(c)) =~= spec_escape_body(s) + spec_escape_char_body(c));
    } else {
        assert(s.push(c).drop_first() =~= s.drop_first().push(c));
        lemma_escape_body_push(s.drop_first(), c);
        assert(s.push(c)[0] == s[0]);
        assert(spec_escape_body(s.push(c)) == spec_escape_char_body(s[0]) + spec_escape_body(
            s.drop_first().push(c),
        ));
        assert(spec_escape_body(s) == spec_escape_char_body(s[0]) + spec_escape_body(
            s.drop_first(),
        ));
        assert((spec_escape_char_body(s[0]) + (spec_escape_body(s.drop_first())
            + spec_escape_char_body(c))) =~= ((spec_escape_char_body(s[0]) + spec_escape_body(
            s.drop_first(),
        )) + spec_escape_char_body(c)));
        assert(spec_escape_body(s.push(c)) =~= spec_escape_body(s) + spec_escape_char_body(c));
    }
}

/// The inverse of the title escaping: a backslash-quote pair reads back as
/// one quote.
pub open spec fn spec_unescape_title(s: Seq<char>) -> Seq<char>
    decreases s.len(),
{
    if s.len() == 0 {
        Seq::empty()
    } else if s.len() >= 2 && s[0] == '\\' && s[1] == '"' {
        seq!['"'] + spec_unescape_title(s.skip(2))
    } else {
        seq![s[0]] + spec_unescape_title(s.drop_first())
    }
}

/// The inverse of the body escaping: a doubled quote reads back as one
/// quote.
pub open spec fn spec_unescape_body(s: Seq<char>) -> Seq<char>
    decreases s.len(),
{
    if s.len() == 0 {
        Seq::empty()
    } else if s.len() >= 2 && s[0] == '"' && s[1] == '"' {
        seq!['"'] + spec_unescape_body(s.skip(2))
    } else {
        seq![s[0]] + spec_unescape_body(s.drop_first())
    }
}

/// An escaped title never starts with a bare quote: each quote of the
/// original is preceded by the backslash the escaping put there.
proof fn lemma_escape_title_head(s: Seq<char>)
    ensures
        spec_escape_title(s).len() > 0 ==> spec_escape_title(s)[0] != '"',
{
    if s.len() > 0 {
        assert(spec_escape_title(s) == spec_escape_char_title(s[0]) + spec_escape_title(
            s.drop_first(),
        ));
    }
}

/// Un-escaping undoes the title escaping, whatever the title holds.
pub proof fn lemma_title_escape_round_trip(s: Seq<char>)
    ensures
        spec_unescape_title(spec_escape_title(s)) == s,
    decreases s.len(),
{
    if s.len() == 0 {
    } else {
        let rest = s.drop_first();
        lemma_title_escape_round_trip(rest);
        assert(spec_escape_title(s) == spec_escape_char_title(s[0]) + spec_escape_title(rest));
        let e = spec_escape_title(s);
        if s[0] == '"' {
            assert(e[0] == '\\' && e[1] == '"');
            assert(e.skip(2) =~= spec_escape_title(rest));
            assert(spec_unescape_title(e) == seq!['"'] + spec_unescape_title(
                spec_escape_title(rest),
            ));
            assert(spec_unescape_title(e) =~= s);
        } else {
            assert(e[0] == s[0]);
            lemma_escape_title_head(rest);
            assert(!(e.len() >= 2 && e[0] == '\\' && e[1] == '"')) by {
                if e.len() >= 2 && e[0] == '\\' && e[1] == '"' {
                    assert(e[1] == spec_escape_title(rest)[0]);
                }
            }
            assert(e.drop_first() =~= spec_escape_title(rest));
            assert(spec_unescape_title(e) == seq![s[0]] + spec_unescape_title(
                spec_escape_title(rest),
            ));
            assert(spec_unescape_title(e) =~= s);
        }
    }
}

/// Un-escaping undoes the body escaping, whatever the body holds.
pub proof fn lemma_body_escape_round_trip(s: Seq<char>)
    ensures
        spec_unescape_body(spec_escape_body(s)) == s,
    decreases s.len(),
{
    if s.len() == 0 {
    } else {
        let rest = s.drop_first();
        lemma_body_escape_round_trip(rest);
        assert(spec_escape_body(s) == spec_escape_char_body(s[0]) + spec_escape_body(rest));
        let e = spec_escape_body(s);
        if s[0] == '"' {
            assert(e[0] == '"' && e[1] == '"');
            assert(e.skip(2) =~= spec_escape_body(rest));
            assert(spec_unescape_body(e) == seq!['"'] + spec_unescape_body(spec_escape_body(rest)));
            assert(spec_unescape_body(e) =~= s);
        } else {
            assert(e[0] == s[0]);
            assert(!(e.len() >= 2 && e[0] == '"' && e[1] == '"'));
            assert(e.drop_first() =~= spec_escape_body(rest));
            assert(spec_unescape_body(e) == seq![s[0]] + spec_unescape_body(spec_escape_body(rest)));
            assert(spec_unescape_body(e) =~= s);
        }
    }
}

/// Reads an escaped title field's contents back.
pub fn unescape_title(s: &str) -> (r: String)
    ensures
        r@ == spec_unescape_title(s@),
{
    let cs = chars_vec(s);
    let mut r = String::new();
    let mut i: usize = 0;
    proof {
        assert(s@.skip(0) =~= s@);
        assert(r@ + spec_unescape_title(s@) =~= spec_unescape_title(s@));
    }
    while i < cs.len()
        invariant
            cs@ == s@,
            i <= cs.len(),
            r@ + spec_unescape_title(s@.skip(i as int)) == spec_unescape_title(s@),
        decreases cs.len() - i,
    {
        let ghost pending = s@.skip(i as int);
        if cs[i] == '\\' && i + 1 < cs.len() && cs[i + 1] == '"' {
            push_char(&mut r, '"');
            proof {
                assert(pending.skip(2) =~= s@.skip(i + 2));
                assert(r@ + spec_unescape_title(s@.skip(i + 2)) =~= spec_unescape_title(s@));
            }
            i = i + 2;
        } else {
            push_char(&mut r, cs[i]);
            proof {
                assert(pending.drop_first() =~= s@.skip(i + 1));
                assert(r@ + spec_unescape_title(s@.skip(i + 1)) =~= spec_unescape_title(s@));
            }
            i = i + 1;
        }
    }
    proof {
        assert(s@.skip(i as int) =~= Seq::<char>::empty());
        assert(r@ =~= spec_unescape_title(s@));
    }
    r
}

/// Reads an escaped body field's contents back.
pub fn unescape_body(s: &str) -> (r: String)
    ensures
        r@ == spec_unescape_body(s@),
{
    let cs = chars_vec(s);
    let mut r = String::new();
    let mut i: usize = 0;
    proof {
        assert(s@.skip(0) =~= s@);
        assert(r@ + spec_unescape_body(s@) =~= spec_unescape_body(s@));
    }
    while i < cs.len()
        invariant
            cs@ == s@,
            i <= cs.len(),
            r@ + spec_unescape_body(s@.skip(i as int)) == spec_unescape_body(s@),
        decreases cs.len() - i,
    {
        let ghost pending = s@.skip(i as int);
        if cs[i] == '"' && i + 1 < cs.len() && cs[i + 1] == '"' {
            push_char(&mut r, '"');
            proof {
                assert(pending.skip(2) =~= s@.skip(i + 2));
                assert(r@ + spec_unescape_body(s@.skip(i + 2)) =~= spec_unescape_body(s@));
            }
            i = i + 2;
        } else {
            push_char(&mut r, cs[i]);
            proof {
                assert(pending.drop_first() =~= s@.skip(i + 1));
                assert(r@ + spec_unescape_body(s@.skip(i + 1)) =~= spec_unescape_body(s@));
            }
            i = i + 1;
        }
    }
    proof {
        assert(s@.skip(i as int) =~= Seq::<char>::empty());
        assert(r@ =~= spec_unescape_body(s@));
    }
    r
}

/// Appends the escaped title field contents to `out`.
pub fn append_escaped_title(out: &mut String, s: &str)
    ensures
        final(out)@ == old(out)@ + spec_escape_title(s@),
{
    for c in it: s.chars()
        invariant
            out@ == old(out)@ + spec_escape_title(it.seq().subrange(0, it.index() as int)),
            it.seq() == s@,
    {
        proof {
            let done = it.seq().subrange(0, it.index() as int);
            assert(it.seq().subrange(0, it.index() + 1) =~= done.push(c));
            lemma_escape_title_push(done, c);
        }
        if c == '"' {
            push_char(out, '\\');
            push_char(out, '"');
        } else {
            push_char(out, c);
        }
        proof {
            assert(out@ =~= old(out)@ + spec_escape_title(
                it.seq().subrange(0, it.index() + 1),
            ));
        }
    }
    proof {
        assert(s@.subrange(0, s@.len() as int) =~= s@);
    }
}

/// Appends the escaped body field contents to `out`.
pub fn append_escaped_body(out: &mut String, s: &str)
    ensures
        final(out)@ == old(out)@ + spec_escape_body(s@),
{
    for c in it: s.chars()
        invariant
            out@ == old(out)@ + spec_escape_body(it.seq().subrange(0, it.index() as int)),
            it.seq() == s@,
    {
        proof {
            let done = it.seq().subrange(0, it.index() as int);
            assert(it.seq().subrange(0, it.index() + 1) =~= done.push(c));
            lemma_escape_body_push(done, c);
        }
        if c == '"' {
            push_char(out, '"');
            push_char(out, '"');
        } else {
            push_char(out, c);
        }
        proof {
            assert(out@ =~= old(out)@ + spec_escape_body(
                it.seq().subrange(0, it.index() + 1),
            ));
        }
    }
    proof {
        assert(s@.subrange(0, s@.len() as int) =~= s@);
    }
}

} // verus!
