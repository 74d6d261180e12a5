//! Verified text building blocks: appending characters, decimal rendering
//! of indices, and the Markdown cell sanitizer.

use vstd::prelude::*;

verus! {

/// Relies on std's `String::push`: appends the given character to the string.
#[verifier::external_body]
pub fn push_char(s: &mut String, c: char)
    ensures
        final(s)@ == old(s)@.push(c),
{
    s.push(c)
}

/// The character for one decimal digit.
pub open spec fn digit_char(d: nat) -> char {
    if d == 0 {
        '0'
    } else if d == 1 {
        '1'
    } else if d == 2 {
        '2'
    } else if d == 3 {
        '3'
    } else if d == 4 {
        '4'
    } else if d == 5 {
        '5'
    } else if d == 6 {
        '6'
    } else if d == 7 {
        '7'
    } else if d == 8 {
        '8'
    } else {
        '9'
    }
}

/// The decimal representation of a number, most significant digit first.
pub open spec fn dec_rep(n: nat) -> Seq<char>
    decreases n,
{
    if n < 10 {
        seq![digit_char(n)]
    } else {
        dec_rep(n / 10) + seq![digit_char(n % 10)]
    }
}

fn digit(d: usize) -> (c: char)
    requires
        d < 10,
    ensures
        c == digit_char(d as nat),
{
    if d == 0 {
        '0'
    } else if d == 1 {
        '1'
    } else if d == 2 {
        '2'
    } else if d == 3 {
        '3'
    } else if d == 4 {
        '4'
    } else if d == 5 {
        '5'
    } else if d == 6 {
        '6'
    } else if d == 7 {
        '7'
    } else if d == 8 {
        '8'
    } else {
        '9'
    }
}

/// Appends the decimal representation of `n` to `out`.
pub fn push_dec(out: &mut String, n: usize)
    ensures
        final(out)@ == old(out)@ + dec_rep(n as nat),
    decreases n,
{
    if n < 10 {
        push_char(out, digit(n));
        proof {
            assert(final(out)@ =~= old(out)@ + dec_rep(n as nat));
        }
    } else {
        let ghost prev = out@;
        push_dec(out, n / 10);
        push_char(out, digit(n % 10));
        proof {
            assert(final(out)@ =~= prev + dec_rep(n as nat));
        }
    }
}

/// The decimal representation of a number as an owned string.
pub fn usize_to_string(n: usize) -> (s: String)
    ensures
        s@ == dec_rep(n as nat),
{
    let mut s = String::new();
    push_dec(&mut s, n);
    proof {
        assert(s@ =~= dec_rep(n as nat));
    }
    s
}

/// The line-break marker substituted for raw line breaks in cell text.
pub open spec fn br_marker() -> Seq<char> {
    "<br/>"@
}

/// Markdown-table sanitization of cell text, one pass left to right:
/// a pipe is escaped, a double carriage return becomes one line-break
/// marker, a lone newline or carriage return becomes one marker, and
/// every other character is kept.
pub open spec fn md_santise_spec(s: Seq<char>) -> Seq<char>
    decreases s.len(),
{
    if s.len() == 0 {
        Seq::<char>::empty()
    } else if s[0] == '|' {
        "\\|"@ + md_santise_spec(s.skip(1))
    } else if s.len() >= 2 && s[0] == '\r' && s[1] == '\r' {
        br_marker() + md_santise_spec(s.skip(2))
    } else if s[0] == '\n' || s[0] == '\r' {
        br_marker() + md_santise_spec(s.skip(1))
    } else {
        seq![s[0]] + md_santise_spec(s.skip(1))
    }
}

/// In a concatenation of two pieces in which every pipe is preceded by a
/// backslash, every pipe is still preceded by a backslash.
proof fn lemma_pipes_escaped_concat(piece: Seq<char>, rest: Seq<char>)
    requires
        forall|i: int|
            0 <= i < piece.len() && #[trigger] piece[i] == '|' ==> i > 0 && piece[i - 1] == '\\',
        forall|j: int|
            0 <= j < rest.len() && #[trigger] rest[j] == '|' ==> j > 0 && rest[j - 1] == '\\',
    ensures
        forall|i: int|
            0 <= i < (piece + rest).len() && #[trigger] (piece + rest)[i] == '|' ==> i > 0 && (
            piece + rest)[i - 1] == '\\',
{
    assert forall|i: int|
        0 <= i < (piece + rest).len() && #[trigger] (piece + rest)[i] == '|' implies i > 0 && (
    piece + rest)[i - 1] == '\\' by {
        if i < piece.len() {
            assert((piece + rest)[i] == piece[i]);
            assert((piece + rest)[i - 1] == piece[i - 1]);
        } else {
            assert((piece + rest)[i] == rest[i - piece.len()]);
            assert(rest[i - piece.len() - 1] == '\\');
            assert((piece + rest)[i - 1] == rest[i - piece.len() - 1]);
        }
    }
}

/// Every pipe in sanitized cell text is escaped: wherever a pipe occurs in
/// the output, the character just before it is a backslash.
pub proof fn lemma_santise_pipes_escaped(s: Seq<char>)
    ensures
        forall|i: int|
            0 <= i < md_santise_spec(s).len() && #[trigger] md_santise_spec(s)[i] == '|' ==> i > 0
                && md_santise_spec(s)[i - 1] == '\\',
    decreases s.len(),
{
    reveal_strlit("\\|");
    reveal_strlit("<br/>");
    if s.len() == 0 {
    } else if s[0] == '|' {
        lemma_santise_pipes_escaped(s.skip(1));
        lemma_pipes_escaped_concat("\\|"@, md_santise_spec(s.skip(1)));
    } else if s.len() >= 2 && s[0] == '\r' && s[1] == '\r' {
        lemma_santise_pipes_escaped(s.skip(2));
        lemma_pipes_escaped_concat(br_marker(), md_santise_spec(s.skip(2)));
    } else if s[0] == '\n' || s[0] == '\r' {
        lemma_santise_pipes_escaped(s.skip(1));
        lemma_pipes_escaped_concat(br_marker(), md_santise_spec(s.skip(1)));
    } else {
        lemma_santise_pipes_escaped(s.skip(1));
        lemma_pipes_escaped_concat(seq![s[0]], md_santise_spec(s.skip(1)));
    }
}

/// In a concatenation of two pieces whose characters all satisfy `good`,
/// every character still satisfies `good`.
proof fn lemma_all_chars_concat(piece: Seq<char>, rest: Seq<char>, good: spec_fn(char) -> bool)
    requires
        forall|i: int| 0 <= i < piece.len() ==> good(#[trigger] piece[i]),
        forall|j: int| 0 <= j < rest.len() ==> good(#[trigger] rest[j]),
    ensures
        forall|i: int| 0 <= i < (piece + rest).len() ==> good(#[trigger] (piece + rest)[i]),
{
    assert forall|i: int| 0 <= i < (piece + rest).len() implies good((piece + rest)[i]) by {
        if i < piece.len() {
            assert((piece + rest)[i] == piece[i]);
        } else {
            assert((piece + rest)[i] == rest[i - piece.len()]);
        }
    }
}

/// Sanitized cell text is free of raw line breaks: no carriage return and no
/// newline remains in the output.
pub proof fn lemma_santise_no_raw_breaks(s: Seq<char>)
    ensures
        forall|i: int|
            0 <= i < md_santise_spec(s).len() ==> #[trigger] md_santise_spec(s)[i] != '\r'
                && md_santise_spec(s)[i] != '\n',
    decreases s.len(),
{
    reveal_strlit("\\|");
    reveal_strlit("<br/>");
    let good = |c: char| c != '\r' && c != '\n';
    if s.len() == 0 {
    } else if s[0] == '|' {
        lemma_santise_no_raw_breaks(s.skip(1));
        lemma_all_chars_concat("\\|"@, md_santise_spec(s.skip(1)), good);
    } else if s.len() >= 2 && s[0] == '\r' && s[1] == '\r' {
        lemma_santise_no_raw_breaks(s.skip(2));
        lemma_all_chars_concat(br_marker(), md_santise_spec(s.skip(2)), good);
    } else if s[0] == '\n' || s[0] == '\r' {
        lemma_santise_no_raw_breaks(s.skip(1));
        lemma_all_chars_concat(br_marker(), md_santise_spec(s.skip(1)), good);
    } else {
        lemma_santise_no_raw_breaks(s.skip(1));
        lemma_all_chars_concat(seq![s[0]], md_santise_spec(s.skip(1)), good);
    }
}

/// Sanitizes one piece of cell text for use inside a Markdown table.
pub fn sanitize_text(s: &str) -> (r: String)
    ensures
        r@ == md_santise_spec(s@),
{
    let len: usize = s.unicode_len();
    let mut out = String::new();
    let mut i: usize = 0;
    proof {
        assert(s@.skip(0) =~= s@);
        assert(Seq::<char>::empty() + md_santise_spec(s@) =~= md_santise_spec(s@));
    }
    while i < len
        invariant
            i <= len,
            len == s@.len(),
            md_santise_spec(s@) == out@ + md_santise_spec(s@.skip(i as int)),
        decreases len - i,
    {
        let ghost t = s@.skip(i as int);
        let ghost prev = out@;
        let c = s.get_char(i);
        proof {
            assert(t[0] == s@[i as int]);
            assert(t.skip(1) =~= s@.skip(i as int + 1));
            if i + 2 <= len {
                assert(t[1] == s@[i as int + 1]);
                assert(t.skip(2) =~= s@.skip(i as int + 2));
            }
        }
        if c == '|' {
            out.append("\\|");
            i = i + 1;
            proof {
                assert(prev + ("\\|"@ + md_santise_spec(s@.skip(i as int))) =~= out@
                    + md_santise_spec(s@.skip(i as int)));
            }
        } else if c == '\r' && i + 1 < len && s.get_char(i + 1) == '\r' {
            out.append("<br/>");
            i = i + 2;
            proof {
                assert(prev + (br_marker() + md_santise_spec(s@.skip(i as int))) =~= out@
                    + md_santise_spec(s@.skip(i as int)));
            }
        } else if c == '\n' || c == '\r' {
            out.append("<br/>");
            i = i + 1;
            proof {
                assert(prev + (br_marker() + md_santise_spec(s@.skip(i as int))) =~= out@
                    + md_santise_spec(s@.skip(i as int)));
            }
        } else {
            push_char(&mut out, c);
            i = i + 1;
            proof {
                assert(prev + (seq![c] + md_santise_spec(s@.skip(i as int))) =~= out@
                    + md_santise_spec(s@.skip(i as int)));
            }
        }
    }
    proof {
        assert(s@.skip(len as int) =~= Seq::<char>::empty());
        assert(out@ + Seq::<char>::empty() =~= out@);
    }
    out
}

} // verus!
