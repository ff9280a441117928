//! Text helpers: ordering, decimal numbers and cutting off.
use vstd::prelude::*;
use vstd::string::*;
use vstd::utf8::*;

verus! {

/// How one text stands to another in the order of their characters.
#[derive(Clone, Copy, Debug, PartialEq, Eq, Structural)]
pub enum Side {
    Before,
    Same,
    After,
}

/// `a` comes strictly before `b`: at the first place where they differ, `a` has ended or has the
/// character with the smaller code point. This is also the order of the UTF-8 bytes.
pub open spec fn precedes(a: Seq<char>, b: Seq<char>) -> bool {
    exists|i: int| #[trigger] differs_at(a, b, i)
}

/// The first `i` characters agree, and at `i` the text `a` is the smaller one.
pub open spec fn differs_at(a: Seq<char>, b: Seq<char>, i: int) -> bool {
    &&& 0 <= i <= a.len()
    &&& i < b.len()
    &&& a.take(i) == b.take(i)
    &&& i < a.len() ==> (a[i] as int) < (b[i] as int)
}

/// No text precedes itself, and of two texts at most one precedes the other.
pub proof fn precedes_asymmetric(a: Seq<char>, b: Seq<char>)
    ensures
        !(precedes(a, b) && precedes(b, a)),
        !precedes(a, a),
{
    if precedes(a, b) && precedes(b, a) {
        let i = choose|i: int| #[trigger] differs_at(a, b, i);
        let j = choose|j: int| #[trigger] differs_at(b, a, j);
        if i < j {
            assert(a.take(j)[i] == b.take(j)[i]);
        } else if j < i {
            assert(a.take(i)[j] == b.take(i)[j]);
        }
    }
    if precedes(a, a) {
        let i = choose|i: int| #[trigger] differs_at(a, a, i);
    }
}

/// The order of texts is transitive.
pub proof fn precedes_transitive(a: Seq<char>, b: Seq<char>, c: Seq<char>)
    requires
        precedes(a, b),
        precedes(b, c),
    ensures
        precedes(a, c),
{
    let i = choose|i: int| #[trigger] differs_at(a, b, i);
    let j = choose|j: int| #[trigger] differs_at(b, c, j);
    let k = if i <= j { i } else { j };
    assert forall|n: int| 0 <= n < k implies a.take(k)[n] == c.take(k)[n] by {
        assert(a.take(i)[n] == b.take(i)[n]);
        assert(b.take(j)[n] == c.take(j)[n]);
    }
    assert(a.take(k) =~= c.take(k));
    if i < j {
        assert(b.take(j)[i] == c.take(j)[i]);
    } else if j < i {
        assert(a.take(i)[j] == b.take(i)[j]);
    }
    assert(differs_at(a, c, k));
}

/// Tells which of two texts comes first.
pub fn compare_text(a: &str, b: &str) -> (side: Side)
    ensures
        side is Before <==> precedes(a@, b@),
        side is Same <==> a@ == b@,
        side is After <==> precedes(b@, a@),
{
    broadcast use group_string_axioms;

    let mut xs = a.chars();
    let mut ys = b.chars();
    let ghost mut i: int = 0;
    loop
        invariant
            0 <= i <= a@.len(),
            i <= b@.len(),
            a@.take(i) == b@.take(i),
            vstd::std_specs::iter::IteratorSpec::remaining(&xs) == a@.skip(i),
            vstd::std_specs::iter::IteratorSpec::remaining(&ys) == b@.skip(i),
        decreases a@.len() - i,
    {
        let x = xs.next();
        let y = ys.next();
        proof {
            precedes_asymmetric(a@, b@);
            precedes_asymmetric(b@, a@);
        }
        match (x, y) {
            (None, None) => {
                assert(a@ =~= a@.take(i));
                assert(b@ =~= b@.take(i));
                return Side::Same;
            },
            (None, Some(_)) => {
                assert(differs_at(a@, b@, i));
                return Side::Before;
            },
            (Some(_), None) => {
                assert(differs_at(b@, a@, i));
                return Side::After;
            },
            (Some(c), Some(d)) => {
                assert(c == a@[i] && d == b@[i]);
                if c < d {
                    assert(differs_at(a@, b@, i));
                    return Side::Before;
                }
                if d < c {
                    assert(differs_at(b@, a@, i));
                    return Side::After;
                }
                proof {
                    assert(a@.take(i + 1) =~= a@.take(i).push(c));
                    assert(b@.take(i + 1) =~= b@.take(i).push(d));
                    i = i + 1;
                }
            },
        }
    }
}

/// The same texts again.
pub fn copy_texts(texts: &Vec<String>) -> (copy: Vec<String>)
    ensures
        copy.deep_view() == texts.deep_view(),
{
    let mut copy: Vec<String> = Vec::new();
    let mut i: usize = 0;
    while i < texts.len()
        invariant
            i <= texts@.len(),
            copy.deep_view() =~= texts.deep_view().take(i as int),
        decreases texts@.len() - i,
    {
        let ghost before = copy.deep_view();
        let text = texts[i].clone();
        copy.push(text);
        assert(copy.deep_view() =~= before.push(text@));
        assert(texts.deep_view().take(i + 1) =~= texts.deep_view().take(i as int).push(
            texts.deep_view()[i as int],
        ));
        i = i + 1;
    }
    assert(texts.deep_view().take(i as int) =~= texts.deep_view());
    copy
}

/// Three texts in a row.
pub(crate) fn around(before: &str, text: &str, after: &str) -> (whole: String)
    ensures
        whole@ == before@ + text@ + after@,
{
    before.to_owned().concat(text).concat(after)
}

/// The decimal digit of a number below ten.
pub open spec fn digit(d: nat) -> char {
    (48 + d) as char
}

/// The decimal notation of a number, without leading zeros.
pub open spec fn decimal(n: nat) -> Seq<char>
    decreases n,
{
    if n < 10 {
        seq![digit(n)]
    } else {
        decimal(n / 10).push(digit(n % 10))
    }
}

/// The digit as a text of one character.
fn digit_text(d: u64) -> (text: &'static str)
    requires
        d < 10,
    ensures
        text@ == seq![digit(d as nat)],
{
    proof {
        reveal_strlit("0");
        reveal_strlit("1");
        reveal_strlit("2");
        reveal_strlit("3");
        reveal_strlit("4");
        reveal_strlit("5");
        reveal_strlit("6");
        reveal_strlit("7");
        reveal_strlit("8");
        reveal_strlit("9");
    }
    match d {
        0 => "0",
        1 => "1",
        2 => "2",
        3 => "3",
        4 => "4",
        5 => "5",
        6 => "6",
        7 => "7",
        8 => "8",
        _ => "9",
    }
}

/// Writes a number in decimal notation.
pub fn to_decimal(n: u64) -> (text: String)
    ensures
        text@ == decimal(n as nat),
    decreases n,
{
    if n < 10 {
        let text = digit_text(n).to_owned();
        text
    } else {
        let mut text = to_decimal(n / 10);
        text.append(digit_text(n % 10));
        assert(text@ =~= decimal(n as nat));
        text
    }
}

/// Two numbers with the same decimal notation are the same number.
pub proof fn decimal_injective(m: nat, n: nat)
    requires
        decimal(m) == decimal(n),
    ensures
        m == n,
    decreases m,
{
    decimal_not_empty(m / 10);
    decimal_not_empty(n / 10);
    assert(decimal(m).last() == digit(m % 10));
    assert(decimal(n).last() == digit(n % 10));
    assert(digit(m % 10) as int == 48 + m % 10);
    assert(digit(n % 10) as int == 48 + n % 10);
    if m >= 10 && n >= 10 {
        assert(decimal(m).drop_last() =~= decimal(m / 10));
        assert(decimal(n).drop_last() =~= decimal(n / 10));
        decimal_injective(m / 10, n / 10);
    } else if m < 10 && n >= 10 {
        assert(decimal(m).len() == 1);
    } else if m >= 10 && n < 10 {
        assert(decimal(n).len() == 1);
    }
}

/// A decimal notation has at least one digit.
pub proof fn decimal_not_empty(n: nat)
    ensures
        decimal(n).len() >= 1,
    decreases n,
{
    if n >= 10 {
        decimal_not_empty(n / 10);
    }
}

/// A text of at most so many UTF-8 bytes, or one that has a character boundary there.
pub open spec fn cuts_cleanly(text: Seq<char>, limit: int) -> bool {
    encode_utf8(text).len() <= limit || is_char_boundary(encode_utf8(text), limit)
}

/// As much of a text as its first UTF-8 bytes hold.
pub open spec fn cut(text: Seq<char>, limit: int) -> Seq<char> {
    if encode_utf8(text).len() <= limit {
        text
    } else {
        decode_utf8(encode_utf8(text).subrange(0, limit))
    }
}

/// What is left of a text that is cut off has no more bytes than allowed, and is how the text
/// starts. It has exactly as many as allowed if anything was cut off.
pub proof fn cut_is_short(text: Seq<char>, limit: int)
    requires
        limit >= 0,
        cuts_cleanly(text, limit),
    ensures
        encode_utf8(cut(text, limit)).len() <= limit,
        cut(text, limit).is_prefix_of(text),
        cut(text, limit) != text ==> encode_utf8(cut(text, limit)).len() == limit,
{
    let bytes = encode_utf8(text);
    if bytes.len() > limit {
        encode_utf8_valid_utf8(text);
        encode_utf8_decode_utf8(text);
        valid_utf8_split(bytes, limit);
        decode_utf8_split(bytes, limit);
        decode_utf8_encode_utf8(bytes.subrange(0, limit));
    }
}

/// A text of ASCII characters can be cut off anywhere, and then as many characters are left as
/// bytes are allowed.
pub proof fn ascii_cuts_cleanly(text: Seq<char>, limit: int)
    requires
        is_ascii_chars(text),
        limit >= 0,
    ensures
        cuts_cleanly(text, limit),
        text.len() <= limit ==> cut(text, limit) == text,
        text.len() > limit ==> cut(text, limit) == text.take(limit),
{
    let bytes = encode_utf8(text);
    is_ascii_chars_encode_utf8(text);
    if text.len() > limit {
        encode_utf8_valid_utf8(text);
        assert(bytes[limit] == text[limit] as u8);
        is_char_boundary_iff_not_is_continuation_byte(bytes, limit);
        let short = text.take(limit);
        assert(is_ascii_chars(short)) by {
            assert forall|i: int| 0 <= i < short.len() implies '\0' <= #[trigger] short[i]
                <= '\u{7f}' by {
                assert(short[i] == text[i]);
            }
        }
        is_ascii_chars_encode_utf8(short);
        assert(encode_utf8(short) =~= bytes.subrange(0, limit)) by {
            assert forall|i: int| 0 <= i < limit implies encode_utf8(short)[i] == bytes[i] by {
                assert(short[i] as u8 == encode_utf8(short)[i]);
                assert(text[i] as u8 == bytes[i]);
            }
        }
        encode_utf8_decode_utf8(short);
    }
}

/// Cuts a text off after so many UTF-8 bytes.
pub fn truncate(text: &str, limit: usize) -> (short: String)
    requires
        cuts_cleanly(text@, limit as int),
    ensures
        short@ == cut(text@, limit as int),
{
    if text.as_bytes().len() <= limit {
        text.to_owned()
    } else {
        let (short, _) = text.split_at(limit);
        proof {
            encode_utf8_decode_utf8(short@);
        }
        short.to_owned()
    }
}

} // verus!
