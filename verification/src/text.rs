//! Text helpers shared by the hook modules: trimming, joining, decimal numbers.
use vstd::prelude::*;

verus! {

/// The characters with Unicode's `White_Space` property.
pub open spec fn is_white_space(c: char) -> bool {
    let code = c as u32;
    ||| 0x9 <= code <= 0xd
    ||| code == 0x20
    ||| code == 0x85
    ||| code == 0xa0
    ||| code == 0x1680
    ||| 0x2000 <= code <= 0x200a
    ||| code == 0x2028
    ||| code == 0x2029
    ||| code == 0x202f
    ||| code == 0x205f
    ||| code == 0x3000
}

/// `s` without its leading and trailing white space.
pub open spec fn trimmed(s: Seq<char>) -> Seq<char>
    decreases s.len(),
{
    if s.len() == 0 {
        s
    } else if is_white_space(s.first()) {
        trimmed(s.drop_first())
    } else if is_white_space(s.last()) {
        trimmed(s.drop_last())
    } else {
        s
    }
}

/// `str::trim` of the standard library: the text between the first and the last
/// character that is not white space, where white space is Unicode's
/// `White_Space` property, and the empty text if there is no such character.
pub assume_specification[ str::trim ](s: &str) -> (t: &str)
    ensures
        t@ == trimmed(s@),
;

/// The trimmed text, where anything is left of it.
pub open spec fn non_blank(s: Seq<char>) -> Option<Seq<char>> {
    if trimmed(s).len() == 0 {
        None
    } else {
        Some(trimmed(s))
    }
}

/// Trims `text`, and drops it if that leaves nothing.
pub fn trimmed_non_empty(text: &str) -> (kept: Option<String>)
    ensures
        kept.deep_view() == non_blank(text@),
{
    let inner = text.trim();
    if inner.is_empty() {
        None
    } else {
        Some(inner.to_owned())
    }
}

/// Trimming twice is trimming once, and what is left neither starts nor ends
/// with white space.
pub proof fn trimmed_is_stable(s: Seq<char>)
    ensures
        trimmed(trimmed(s)) == trimmed(s),
        trimmed(s).len() > 0 ==> !is_white_space(trimmed(s).first()) && !is_white_space(
            trimmed(s).last(),
        ),
    decreases s.len(),
{
    if s.len() == 0 {
    } else if is_white_space(s.first()) {
        trimmed_is_stable(s.drop_first());
    } else if is_white_space(s.last()) {
        trimmed_is_stable(s.drop_last());
    }
}

/// A second text with the same characters, where there is one.
pub fn copy_text(text: &Option<String>) -> (copy: Option<String>)
    ensures
        copy.deep_view() == text.deep_view(),
{
    match text {
        Some(text) => Some(text.clone()),
        None => None,
    }
}

/// Whether two texts hold the same characters.
pub fn same_text(a: &str, b: &str) -> (same: bool)
    ensures
        same == (a@ == b@),
{
    a.to_owned() == b.to_owned()
}

/// The chunks in order, with an empty line between neighbours.
pub open spec fn joined(chunks: Seq<Seq<char>>) -> Seq<char>
    decreases chunks.len(),
{
    if chunks.len() == 0 {
        Seq::empty()
    } else if chunks.len() == 1 {
        chunks[0]
    } else {
        joined(chunks.drop_last()) + "\n\n"@ + chunks.last()
    }
}

/// Joins the chunks with an empty line between neighbours; `None` without any.
pub fn join_text_chunks(chunks: Vec<String>) -> (text: Option<String>)
    ensures
        text.deep_view() == (if chunks@.len() == 0 {
            None
        } else {
            Some(joined(chunks.deep_view()))
        }),
{
    if chunks.is_empty() {
        return None;
    }
    let mut text = chunks[0].clone();
    let ghost parts = chunks.deep_view();
    assert(parts.take(1) =~= seq![chunks@[0]@]);
    let mut i: usize = 1;
    while i < chunks.len()
        invariant
            1 <= i <= chunks@.len(),
            parts == chunks.deep_view(),
            text@ == joined(parts.take(i as int)),
        decreases chunks@.len() - i,
    {
        text.append("\n\n");
        text.append(chunks[i].as_str());
        assert(parts.take(i + 1).drop_last() =~= parts.take(i as int));
        i += 1;
    }
    assert(parts.take(parts.len() as int) =~= parts);
    Some(text)
}

/// The decimal digit of `d`.
pub open spec fn digit(d: nat) -> char
    recommends
        d < 10,
{
    (48 + d) as char
}

/// `n` in decimal notation.
pub open spec fn decimal_nat(n: nat) -> Seq<char>
    decreases n,
{
    if n < 10 {
        seq![digit(n)]
    } else {
        decimal_nat(n / 10).push(digit(n % 10))
    }
}

/// `n` in decimal notation, with a minus sign in front of a negative number.
pub open spec fn decimal(n: int) -> Seq<char> {
    if n < 0 {
        "-"@ + decimal_nat((-n) as nat)
    } else {
        decimal_nat(n as nat)
    }
}

fn digit_text(d: u64) -> (text: &'static str)
    requires
        d < 10,
    ensures
        text@ == seq![digit(d as nat)],
{
    proof {
        reveal_strlit("0");
        reveal_strlit("1");
        reveal_strlit("2");
        reveal_strlit("3");
        reveal_strlit("4");
        reveal_strlit("5");
        reveal_strlit("6");
        reveal_strlit("7");
        reveal_strlit("8");
        reveal_strlit("9");
    }
    match d {
        0 => "0",
        1 => "1",
        2 => "2",
        3 => "3",
        4 => "4",
        5 => "5",
        6 => "6",
        7 => "7",
        8 => "8",
        _ => "9",
    }
}

fn append_decimal(out: &mut String, n: u64)
    ensures
        final(out)@ == old(out)@ + decimal_nat(n as nat),
    decreases n,
{
    if n >= 10 {
        append_decimal(out, n / 10);
    }
    out.append(digit_text(n % 10));
}

/// Writes `n` in decimal notation.
pub fn decimal_text(n: i64) -> (text: String)
    ensures
        text@ == decimal(n as int),
{
    let mut text = String::new();
    if n < 0 {
        let magnitude: i128 = -(n as i128);
        text.append("-");
        append_decimal(&mut text, magnitude as u64);
    } else {
        append_decimal(&mut text, n as u64);
    }
    text
}

/// White space is what Unicode lists as such: the separators of ASCII, the next-line
/// character, and the spaces and breaks beyond ASCII. No visible ASCII character is.
pub proof fn white_space_is_as_unicode_lists_it(c: char)
    ensures
        c == ' ' || c == '\t' || c == '\n' || c == '\r' ==> is_white_space(c),
        0x21 <= c as u32 <= 0x7e ==> !is_white_space(c),
        (c as u32) < 0x80 ==> (is_white_space(c) <==> c as u32 == 0x20 || 9 <= c as u32 <= 13),
        0x80 <= c as u32 <= 0xff ==> (is_white_space(c) <==> c as u32 == 0x85 || c as u32 == 0xa0),
        (c as u32) > 0xff ==> (is_white_space(c) <==> c as u32 == 0x1680 || (0x2000 <= c as u32
            && c as u32 <= 0x200a) || c as u32 == 0x2028 || c as u32 == 0x2029 || c as u32 == 0x202f
            || c as u32 == 0x205f || c as u32 == 0x3000),
{
}

/// Trimming takes off white space at both ends and nothing else: whatever stands
/// between, if it is empty or neither starts nor ends with white space, is left.
pub proof fn trimming_leaves_what_stands_between(
    left: Seq<char>,
    inner: Seq<char>,
    right: Seq<char>,
)
    requires
        forall|i: int| 0 <= i < left.len() ==> is_white_space(#[trigger] left[i]),
        forall|i: int| 0 <= i < right.len() ==> is_white_space(#[trigger] right[i]),
        inner.len() > 0 ==> !is_white_space(inner.first()) && !is_white_space(inner.last()),
    ensures
        trimmed(left + inner + right) == inner,
    decreases left.len() + inner.len() + right.len(), right.len(),
{
    let s = left + inner + right;
    if left.len() > 0 {
        let fewer = left.drop_first();
        assert(s.first() == left[0]);
        assert forall|i: int| 0 <= i < fewer.len() implies is_white_space(#[trigger] fewer[i]) by {
            assert(fewer[i] == left[i + 1]);
        }
        assert(s.drop_first() =~= fewer + inner + right);
        trimming_leaves_what_stands_between(fewer, inner, right);
    } else if inner.len() == 0 {
        if right.len() > 0 {
            trimming_leaves_what_stands_between(right, inner, left);
            assert(s =~= right + inner + left);
        } else {
            assert(s =~= inner);
        }
    } else {
        assert(s.first() == inner.first());
        if right.len() > 0 {
            let fewer = right.drop_last();
            assert(s.last() == right[right.len() - 1]);
            assert(s.drop_last() =~= left + inner + fewer);
            trimming_leaves_what_stands_between(left, inner, fewer);
        } else {
            assert(s =~= inner);
        }
    }
}

/// A text is blank just if all its characters are white space; of any other text the
/// trimmed part is left, which is not empty.
pub proof fn blank_text_is_all_white_space(s: Seq<char>)
    ensures
        non_blank(s) is None <==> forall|i: int| 0 <= i < s.len() ==> is_white_space(#[trigger] s[i]),
        non_blank(s) matches Some(t) ==> t.len() > 0 && t == trimmed(s),
    decreases s.len(),
{
    if forall|i: int| 0 <= i < s.len() ==> is_white_space(#[trigger] s[i]) {
        let nothing = Seq::<char>::empty();
        trimming_leaves_what_stands_between(s, nothing, nothing);
        assert(s + nothing + nothing =~= s);
    } else {
        let k = choose|k: int| 0 <= k < s.len() && !is_white_space(#[trigger] s[k]);
        if is_white_space(s.first()) {
            let fewer = s.drop_first();
            assert(fewer[k - 1] == s[k]);
            blank_text_is_all_white_space(fewer);
        } else if is_white_space(s.last()) {
            let fewer = s.drop_last();
            assert(fewer[k] == s[k]);
            blank_text_is_all_white_space(fewer);
        }
    }
}

/// One chunk joined is that chunk, and two lists of chunks joined are the one list
/// joined and the other joined with an empty line between. So every chunk is there,
/// however many there are.
pub proof fn joining_keeps_every_chunk(x: Seq<Seq<char>>, y: Seq<Seq<char>>, chunk: Seq<char>)
    ensures
        joined(seq![chunk]) == chunk,
        x.len() > 0 && y.len() > 0 ==> joined(x + y) == joined(x) + seq!['\n', '\n'] + joined(y),
    decreases y.len(),
{
    reveal_strlit("\n\n");
    assert("\n\n"@ =~= seq!['\n', '\n']);
    if x.len() > 0 && y.len() > 0 {
        let all = x + y;
        assert(all.drop_last() =~= x + y.drop_last());
        assert(all.last() == y.last());
        if y.len() == 1 {
            assert(x + y.drop_last() =~= x);
        } else {
            joining_keeps_every_chunk(x, y.drop_last(), chunk);
            let gap = seq!['\n', '\n'];
            assert(joined(all) =~= joined(x) + gap + (joined(y.drop_last()) + gap + y.last()));
        }
    }
}

/// A joined text holds every chunk in one piece.
pub proof fn every_chunk_is_in_the_joined_text(chunks: Seq<Seq<char>>, i: int)
    requires
        0 <= i < chunks.len(),
    ensures
        exists|before: Seq<char>, after: Seq<char>|
            joined(chunks) == #[trigger] (before + chunks[i] + after),
{
    let (x, y) = (chunks.take(i), chunks.skip(i + 1));
    let one = seq![chunks[i]];
    let none = Seq::<char>::empty();
    let gap = seq!['\n', '\n'];
    joining_keeps_every_chunk(x, one, chunks[i]);
    joining_keeps_every_chunk(x + one, y, chunks[i]);
    assert(chunks =~= x + one + y);
    let before = if x.len() > 0 {
        joined(x) + gap
    } else {
        none
    };
    let after = if y.len() > 0 {
        gap + joined(y)
    } else {
        none
    };
    if x.len() == 0 {
        assert(x + one =~= one);
    }
    if y.len() == 0 {
        assert(x + one + y =~= x + one);
    }
    assert(joined(chunks) =~= before + chunks[i] + after);
}

/// A number below ten is its digit; appending a digit to a positive number's notation
/// gives ten times the number plus the digit; a minus sign negates.
pub proof fn decimal_notation_is_positional(n: nat, d: nat)
    requires
        d < 10,
    ensures
        decimal(d as int).len() == 1,
        decimal(d as int)[0] as u32 == '0' as u32 + d,
        n > 0 ==> decimal((10 * n + d) as int) == decimal(n as int) + decimal(d as int),
        n > 0 ==> decimal(-n) == seq!['-'] + decimal(n as int),
{
    reveal_strlit("-");
    assert("-"@ =~= seq!['-']);
    if n > 0 {
        let m = 10 * n + d;
        assert(m / 10 == n && m % 10 == d);
        assert(decimal_nat(m) =~= decimal_nat(n) + decimal_nat(d));
    }
}

} // verus!
