//! Measuring and padding text for fixed-width columns.
//!
//! The width of a text is the number of bytes of its UTF-8 encoding, so a
//! text of plain ASCII is as wide as it has characters.

use vstd::prelude::*;
use vstd::string::*;
use vstd::utf8::*;

verus! {

/// The width of a text: the length of its UTF-8 encoding in bytes.
pub open spec fn width_of(s: Seq<char>) -> nat {
    encode_utf8(s).len()
}

/// A run of `n` copies of the character `c`.
pub open spec fn run_of(c: char, n: nat) -> Seq<char> {
    Seq::new(n, |i: int| c)
}

/// A run of `n` spaces.
pub open spec fn blanks(n: nat) -> Seq<char> {
    run_of(' ', n)
}

/// What a list of strings stands for: the text of each, in order.
pub open spec fn texts(lines: Seq<String>) -> Seq<Seq<char>> {
    Seq::new(lines.len(), |i: int| lines[i]@)
}

/// The number of spaces that centering puts after a text that is `diff`
/// columns short: half of them, rounded down.
pub open spec fn pad_after(diff: nat) -> nat {
    diff / 2
}

/// The number of spaces that centering puts before a text that is `diff`
/// columns short: what `pad_after` leaves over.
pub open spec fn pad_before(diff: nat) -> nat {
    (diff - diff / 2) as nat
}

/// `s` centered in a column of `width`: unchanged when it fills the column,
/// otherwise padded on both sides, the odd space going to the left.
pub open spec fn centered(s: Seq<char>, width: nat) -> Seq<char> {
    if width_of(s) >= width {
        s
    } else {
        let diff = (width - width_of(s)) as nat;
        blanks(pad_before(diff)) + s + blanks(pad_after(diff))
    }
}

/// `s` left-justified in a column of `width`: unchanged when it fills the
/// column, otherwise followed by the missing spaces.
pub open spec fn left_justified(s: Seq<char>, width: nat) -> Seq<char> {
    if width_of(s) >= width {
        s
    } else {
        s + blanks((width - width_of(s)) as nat)
    }
}

/// The largest of `floor` and the numbers in `ws`.
pub open spec fn max_of(floor: nat, ws: Seq<nat>) -> nat
    decreases ws.len(),
{
    if ws.len() == 0 {
        floor
    } else {
        let before = max_of(floor, ws.drop_last());
        if ws.last() > before {
            ws.last()
        } else {
            before
        }
    }
}

/// `max_of` is a maximum: it is no smaller than the floor or any of the
/// numbers, and it is the floor or one of them.
pub proof fn lemma_max_of(floor: nat, ws: Seq<nat>)
    ensures
        max_of(floor, ws) >= floor,
        forall|i: int| 0 <= i < ws.len() ==> max_of(floor, ws) >= ws[i],
        max_of(floor, ws) == floor || exists|i: int| 0 <= i < ws.len() && ws[i] == max_of(floor, ws),
    decreases ws.len(),
{
    if ws.len() > 0 {
        let init = ws.drop_last();
        lemma_max_of(floor, init);
        assert forall|i: int| 0 <= i < ws.len() implies max_of(floor, ws) >= ws[i] by {
            if i < init.len() {
                assert(ws[i] == init[i]);
            }
        }
        if max_of(floor, ws) != floor {
            if ws.last() > max_of(floor, init) {
                assert(ws[ws.len() - 1] == max_of(floor, ws));
            } else {
                let i = choose|i: int| 0 <= i < init.len() && init[i] == max_of(floor, init);
                assert(ws[i] == max_of(floor, ws));
            }
        }
    }
}

/// The width of a concatenation is the sum of the widths.
pub proof fn lemma_width_concat(a: Seq<char>, b: Seq<char>)
    ensures
        width_of(a + b) == width_of(a) + width_of(b),
    decreases a.len(),
{
    if a.len() == 0 {
        assert(a + b =~= b);
    } else {
        assert((a + b).drop_first() =~= a.drop_first() + b);
        lemma_width_concat(a.drop_first(), b);
    }
}

/// A run of an ASCII character is as wide as it is long.
pub proof fn lemma_width_run(c: char, n: nat)
    requires
        c <= '\u{7f}',
    ensures
        width_of(run_of(c, n)) == n,
{
    assert(is_ascii_chars(run_of(c, n)));
    is_ascii_chars_encode_utf8(run_of(c, n));
}

/// The byte length of a text, which is its width.
pub fn width(s: &str) -> (w: usize)
    ensures
        w == width_of(s@),
{
    s.as_bytes().len()
}

/// A string of `n` copies of the ASCII character held in `unit`.
fn repeated(unit: &str, c: char, n: usize) -> (res: String)
    requires
        unit@ == seq![c],
    ensures
        res@ == run_of(c, n as nat),
{
    let mut res = String::new();
    let mut i: usize = 0;
    while i < n
        invariant
            i <= n,
            unit@ == seq![c],
            res@ == run_of(c, i as nat),
        decreases n - i,
    {
        res.append(unit);
        i = i + 1;
        assert(res@ =~= run_of(c, i as nat));
    }
    res
}

/// A string of `n` spaces.
pub fn spaces(n: usize) -> (res: String)
    ensures
        res@ == blanks(n as nat),
{
    proof {
        reveal_strlit(" ");
    }
    assert(" "@ =~= seq![' ']);
    repeated(" ", ' ', n)
}

/// A string of `n` hyphens.
pub fn dashes(n: usize) -> (res: String)
    ensures
        res@ == run_of('-', n as nat),
{
    proof {
        reveal_strlit("-");
    }
    assert("-"@ =~= seq!['-']);
    repeated("-", '-', n)
}

/// Centers `val` in a column of `width`. A text that already fills the
/// column comes back unchanged; nothing is ever cut off.
pub fn center(val: &String, width: usize) -> (res: String)
    ensures
        res@ == centered(val@, width as nat),
{
    let len = self::width(val.as_str());
    if len >= width {
        return val.clone();
    }
    let diff: usize = width - len;
    let end: usize = diff / 2;
    let start: usize = diff - end;
    let mut res = spaces(start);
    res.append(val.as_str());
    let tail = spaces(end);
    res.append(tail.as_str());
    res
}

/// Left-justifies `val` in a column of `width`. A text that already fills
/// the column comes back unchanged; nothing is ever cut off.
pub fn ljust(val: &String, width: usize) -> (res: String)
    ensures
        res@ == left_justified(val@, width as nat),
{
    let len = self::width(val.as_str());
    if len >= width {
        return val.clone();
    }
    let mut res = val.clone();
    let tail = spaces(width - len);
    res.append(tail.as_str());
    res
}

/// A text that fills its column is left as it is by both paddings.
pub proof fn lemma_padding_keeps_wide_text(s: Seq<char>, width: nat)
    requires
        width_of(s) >= width,
    ensures
        centered(s, width) == s,
        left_justified(s, width) == s,
{
}

/// Centering a text narrower than the column fills the column exactly. The
/// text stands between two runs of spaces, the left one as long as the
/// right one or one longer.
pub proof fn lemma_centered_shape(s: Seq<char>, width: nat)
    requires
        width_of(s) < width,
    ensures
        width_of(centered(s, width)) == width,
        centered(s, width) == blanks(pad_before((width - width_of(s)) as nat)) + s + blanks(
            pad_after((width - width_of(s)) as nat),
        ),
        pad_before((width - width_of(s)) as nat) + pad_after((width - width_of(s)) as nat)
            == width - width_of(s),
        pad_after((width - width_of(s)) as nat) <= pad_before((width - width_of(s)) as nat)
            <= pad_after((width - width_of(s)) as nat) + 1,
        (width - width_of(s)) % 2 == 1 ==> pad_before((width - width_of(s)) as nat) == pad_after(
            (width - width_of(s)) as nat,
        ) + 1,
{
    let diff = (width - width_of(s)) as nat;
    lemma_width_run(' ', pad_before(diff));
    lemma_width_run(' ', pad_after(diff));
    lemma_width_concat(blanks(pad_before(diff)), s);
    lemma_width_concat(blanks(pad_before(diff)) + s, blanks(pad_after(diff)));
}

/// Left-justifying a text narrower than the column fills the column
/// exactly: the text comes first and only spaces follow.
pub proof fn lemma_left_justified_shape(s: Seq<char>, width: nat)
    requires
        width_of(s) < width,
    ensures
        width_of(left_justified(s, width)) == width,
        left_justified(s, width) == s + blanks((width - width_of(s)) as nat),
        left_justified(s, width).subrange(0, s.len() as int) == s,
{
    let diff = (width - width_of(s)) as nat;
    lemma_width_run(' ', diff);
    lemma_width_concat(s, blanks(diff));
    assert(left_justified(s, width).subrange(0, s.len() as int) =~= s);
}

/// Padding never makes a text narrower than the column or than itself.
pub proof fn lemma_padded_width(s: Seq<char>, width: nat)
    ensures
        width_of(centered(s, width)) == if width_of(s) >= width { width_of(s) } else { width },
        width_of(left_justified(s, width)) == if width_of(s) >= width { width_of(s) } else { width },
{
    if width_of(s) < width {
        lemma_centered_shape(s, width);
        lemma_left_justified_shape(s, width);
    }
}


/// An empty text left-justified in a column is the column full of spaces.
pub proof fn lemma_blank_field(width: nat)
    ensures
        left_justified(Seq::empty(), width) == blanks(width),
        width_of(blanks(width)) == width,
{
    lemma_width_run(' ', width);
    assert(Seq::<char>::empty() + blanks(width) =~= blanks(width));
    assert(blanks(0) =~= Seq::<char>::empty());
}

} // verus!
