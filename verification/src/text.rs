//! Building and cutting texts: filler removal, decimal and hexadecimal
//! digits, percent escapes, and the part of a text before a stop character.

use vstd::prelude::*;

verus! {

/// The address that every request to the service starts with.
pub const SERVICE_ROOT: &'static str = "http://comci.net:4082/";

/// `String::push` of the standard library: the character is appended to the
/// end of the string and nothing else changes.
pub assume_specification[ std::string::String::push ](s: &mut std::string::String, c: char)
    ensures
        final(s)@ == old(s)@.push(c),
;

/// The filler that the service pads its fixed-size response buffers with.
pub open spec fn is_filler(c: char) -> bool {
    c == '\0'
}

/// A text with every filler character taken out, the rest in order.
pub open spec fn without_filler(text: Seq<char>) -> Seq<char> {
    text.filter(|c: char| !is_filler(c))
}

/// Removing the filler twice is removing it once.
pub proof fn lemma_without_filler_idempotent(text: Seq<char>)
    ensures
        without_filler(without_filler(text)) == without_filler(text),
    decreases text.len(),
{
    let keep = |c: char| !is_filler(c);
    reveal(Seq::filter);
    if text.len() > 0 {
        lemma_without_filler_idempotent(text.drop_last());
        if keep(text.last()) {
            text.drop_last().filter(keep).lemma_filter_push(text.last(), keep);
        }
    }
}

/// A text without filler is left as it is.
pub proof fn lemma_without_filler_keeps_clean(text: Seq<char>)
    requires
        forall|i: int| 0 <= i < text.len() ==> !is_filler(#[trigger] text[i]),
    ensures
        without_filler(text) == text,
    decreases text.len(),
{
    let keep = |c: char| !is_filler(c);
    reveal(Seq::filter);
    if text.len() > 0 {
        lemma_without_filler_keeps_clean(text.drop_last());
        assert(text.drop_last().push(text.last()) =~= text);
    }
}

/// Removes the filler characters from a response.
pub fn validate_json(text: &str) -> (out: String)
    ensures
        out@ == without_filler(text@),
{
    let mut out = String::new();
    for c in it: text.chars()
        invariant
            it.seq() == text@,
            out@ == without_filler(text@.take(it.index() as int)),
    {
        proof {
            let done = text@.take(it.index() as int);
            assert(text@.take(it.index() + 1) =~= done.push(c));
            done.lemma_filter_push(c, |c: char| !is_filler(c));
        }
        if c != '\0' {
            out.push(c);
        }
    }
    assert(text@.take(text@.len() as int) =~= text@);
    out
}

/// The character of a digit below sixteen: `0` to `9`, then `A` to `F`.
pub open spec fn digit_char(d: nat) -> char
    recommends
        d < 16,
{
    if d < 10 {
        (48 + d) as char
    } else {
        (55 + d) as char
    }
}

/// A number written in base ten, without sign or leading zeros.
pub open spec fn decimal(n: nat) -> Seq<char>
    decreases n,
{
    if n < 10 {
        seq![digit_char(n)]
    } else {
        decimal(n / 10).push(digit_char(n % 10))
    }
}

/// One byte as a percent sign and two upper-case hexadecimal digits.
pub open spec fn escaped_byte(b: u8) -> Seq<char> {
    seq!['%', digit_char((b / 16) as nat), digit_char((b % 16) as nat)]
}

/// Every byte of a sequence escaped, in order.
pub open spec fn percent_escaped(bytes: Seq<u8>) -> Seq<char>
    decreases bytes.len(),
{
    if bytes.len() == 0 {
        Seq::empty()
    } else {
        percent_escaped(bytes.drop_last()) + escaped_byte(bytes.last())
    }
}

/// An escaped sequence has three characters for each byte.
pub proof fn lemma_percent_escaped_len(bytes: Seq<u8>)
    ensures
        percent_escaped(bytes).len() == 3 * bytes.len(),
    decreases bytes.len(),
{
    if bytes.len() > 0 {
        lemma_percent_escaped_len(bytes.drop_last());
    }
}

/// Whether `head` is the part of `text` before the first `stop`: a prefix of
/// `text` that holds no `stop` and ends at one, or at the end of `text`.
pub open spec fn is_head_before(text: Seq<char>, stop: char, head: Seq<char>) -> bool {
    &&& head.len() <= text.len()
    &&& head == text.take(head.len() as int)
    &&& !head.contains(stop)
    &&& head.len() < text.len() ==> text[head.len() as int] == stop
}

/// A text has one head before a stop character.
pub proof fn lemma_head_before_unique(text: Seq<char>, stop: char, a: Seq<char>, b: Seq<char>)
    requires
        is_head_before(text, stop, a),
        is_head_before(text, stop, b),
    ensures
        a == b,
{
    if a.len() < b.len() {
        assert(b[a.len() as int] == text[a.len() as int]);
        assert(b.contains(stop));
    } else if b.len() < a.len() {
        assert(a[b.len() as int] == text[b.len() as int]);
        assert(a.contains(stop));
    }
}

/// The number of characters of a text before its first `stop`.
pub open spec fn head_len(text: Seq<char>, stop: char) -> nat
    decreases text.len(),
{
    if text.len() == 0 || text[0] == stop {
        0
    } else {
        1 + head_len(text.drop_first(), stop)
    }
}

/// The part of a text before its first `stop`; the whole text where it
/// holds none.
pub open spec fn head_of(text: Seq<char>, stop: char) -> Seq<char> {
    text.take(head_len(text, stop) as int)
}

/// `head_of` is the head before the stop character.
pub proof fn lemma_head_of(text: Seq<char>, stop: char)
    ensures
        head_len(text, stop) <= text.len(),
        is_head_before(text, stop, head_of(text, stop)),
    decreases text.len(),
{
    if text.len() == 0 || text[0] == stop {
        assert(head_of(text, stop) =~= Seq::<char>::empty());
    } else {
        let rest = text.drop_first();
        lemma_head_of(rest, stop);
        let n = head_len(rest, stop) as int;
        let head = head_of(text, stop);
        assert(head.len() == n + 1);
        assert forall|k: int| 0 <= k < head.len() implies head[k] != stop by {
            if k > 0 {
                assert(head[k] == rest.take(n)[k - 1]);
                if head[k] == stop {
                    assert(rest.take(n).contains(stop));
                }
            }
        }
        if head.len() < text.len() {
            assert(text[head.len() as int] == rest[n]);
        }
    }
}

fn digit(d: u8) -> (c: char)
    requires
        d < 16,
    ensures
        c == digit_char(d as nat),
{
    if d < 10 {
        (48u8 + d) as char
    } else {
        (55u8 + d) as char
    }
}

/// Appends a number in base ten.
pub fn push_decimal(out: &mut String, n: u32)
    ensures
        final(out)@ == old(out)@ + decimal(n as nat),
    decreases n,
{
    if n >= 10 {
        push_decimal(out, n / 10);
    }
    let last: u8 = (n % 10) as u8;
    out.push(digit(last));
    assert(out@ =~= old(out)@ + decimal(n as nat));
}

/// Appends the percent escapes of the bytes.
pub fn push_percent_escaped(out: &mut String, bytes: &[u8])
    ensures
        final(out)@ == old(out)@ + percent_escaped(bytes@),
{
    let mut i: usize = 0;
    assert(bytes@.take(0) =~= Seq::<u8>::empty());
    while i < bytes.len()
        invariant
            i <= bytes.len(),
            out@ == old(out)@ + percent_escaped(bytes@.take(i as int)),
        decreases bytes.len() - i,
    {
        let b: u8 = bytes[i];
        out.push('%');
        out.push(digit(b / 16));
        out.push(digit(b % 16));
        proof {
            let next = bytes@.take(i + 1);
            assert(next.drop_last() =~= bytes@.take(i as int));
            assert(next.last() == b);
            assert(out@ =~= old(out)@ + percent_escaped(next));
        }
        i = i + 1;
    }
    assert(bytes@.take(bytes@.len() as int) =~= bytes@);
}

/// The part of a text before the first `stop`, or all of it where it holds
/// none.
pub fn head_before(text: &str, stop: char) -> (out: String)
    ensures
        out@ == head_of(text@, stop),
{
    let mut out = String::new();
    let mut chars = text.chars();
    let ghost mut seen: int = 0;
    loop
        invariant_except_break
            vstd::std_specs::iter::IteratorSpec::remaining(&chars) == text@.skip(seen),
        invariant
            vstd::std_specs::iter::IteratorSpec::obeys_prophetic_iter_laws(&chars),
            0 <= seen <= text@.len(),
            out@ == text@.take(seen),
            !out@.contains(stop),
        ensures
            is_head_before(text@, stop, out@),
        decreases text@.len() - seen,
    {
        match chars.next() {
            None => {
                assert(text@.skip(seen).len() == 0);
                break ;
            },
            Some(c) => {
                assert(c == text@.skip(seen)[0]);
                if c == stop {
                    break ;
                }
                out.push(c);
                proof {
                    assert(text@.take(seen + 1) =~= text@.take(seen).push(c));
                    assert(text@.skip(seen).drop_first() =~= text@.skip(seen + 1));
                    assert forall|k: int| 0 <= k < out@.len() implies out@[k] != stop by {
                        if k < seen && out@[k] == stop {
                            assert(text@.take(seen)[k] == stop);
                            assert(text@.take(seen).contains(stop));
                        }
                    }
                    seen = seen + 1;
                }
            },
        }
    }
    proof {
        lemma_head_of(text@, stop);
        lemma_head_before_unique(text@, stop, out@, head_of(text@, stop));
    }
    out
}

} // verus!
