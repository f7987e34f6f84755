//! Text helpers shared by the other modules: views of string vectors,
//! joining with a separator, and decimal rendering of unsigned numbers.

use vstd::prelude::*;

verus! {

/// The character sequences of a sequence of strings.
pub open spec fn texts(items: Seq<String>) -> Seq<Seq<char>> {
    items.map_values(|s: String| s@)
}

/// The character sequence of a string that may be absent.
pub open spec fn option_text(item: Option<String>) -> Option<Seq<char>> {
    match item {
        Some(s) => Some(s@),
        None => None,
    }
}

/// `c` is white space.
pub open spec fn is_blank(c: char) -> bool {
    ||| c == ' '
    ||| ('\t' <= c && c <= '\r')
    ||| c == '\u{85}'
    ||| c == '\u{a0}'
    ||| c == '\u{1680}'
    ||| ('\u{2000}' <= c && c <= '\u{200a}')
    ||| c == '\u{2028}'
    ||| c == '\u{2029}'
    ||| c == '\u{202f}'
    ||| c == '\u{205f}'
    ||| c == '\u{3000}'
}

/// The count of white-space characters that `text` starts with.
pub open spec fn blank_prefix(text: Seq<char>) -> int
    decreases text.len(),
{
    if text.len() == 0 || !is_blank(text[0]) {
        0
    } else {
        1 + blank_prefix(text.drop_first())
    }
}

/// Where the white space at the end of `text` starts.
pub open spec fn blank_suffix_start(text: Seq<char>) -> int
    decreases text.len(),
{
    if text.len() == 0 || !is_blank(text.last()) {
        text.len() as int
    } else {
        blank_suffix_start(text.drop_last())
    }
}

/// `text` without the white space at its start and at its end.
pub open spec fn trimmed(text: Seq<char>) -> Seq<char> {
    if blank_prefix(text) <= blank_suffix_start(text) {
        text.subrange(blank_prefix(text), blank_suffix_start(text))
    } else {
        Seq::empty()
    }
}

/// `parts` written one after the other with `sep` between neighbours.
pub open spec fn join(parts: Seq<Seq<char>>, sep: Seq<char>) -> Seq<char>
    decreases parts.len(),
{
    if parts.len() == 0 {
        Seq::empty()
    } else if parts.len() == 1 {
        parts[0]
    } else {
        join(parts.drop_last(), sep) + sep + parts.last()
    }
}

/// The character that writes the digit `d`.
pub open spec fn digit_char(d: nat) -> char {
    if d == 0 {
        '0'
    } else if d == 1 {
        '1'
    } else if d == 2 {
        '2'
    } else if d == 3 {
        '3'
    } else if d == 4 {
        '4'
    } else if d == 5 {
        '5'
    } else if d == 6 {
        '6'
    } else if d == 7 {
        '7'
    } else if d == 8 {
        '8'
    } else {
        '9'
    }
}

/// The decimal notation of `n`, without sign and without leading zeros.
pub open spec fn decimal(n: nat) -> Seq<char>
    decreases n,
{
    if n < 10 {
        seq![digit_char(n)]
    } else {
        decimal(n / 10) + seq![digit_char(n % 10)]
    }
}

/// `a` comes before `b` in the order of a dictionary, character by character.
pub open spec fn text_before(a: Seq<char>, b: Seq<char>) -> bool
    decreases a.len(),
{
    if b.len() == 0 {
        false
    } else if a.len() == 0 {
        true
    } else if a[0] == b[0] {
        text_before(a.drop_first(), b.drop_first())
    } else {
        a[0] < b[0]
    }
}

/// `a` comes before `b` when they agree up to `k`, where `a` ends or holds
/// the smaller character.
pub proof fn text_before_at(a: Seq<char>, b: Seq<char>, k: int)
    requires
        0 <= k <= a.len(),
        k < b.len(),
        forall|j: int| 0 <= j < k ==> a[j] == b[j],
        k == a.len() || a[k] < b[k],
    ensures
        text_before(a, b),
    decreases k,
{
    if k > 0 {
        let a_rest = a.drop_first();
        let b_rest = b.drop_first();
        assert forall|j: int| 0 <= j < k - 1 implies a_rest[j] == b_rest[j] by {
            assert(a[j + 1] == b[j + 1]);
        }
        text_before_at(a_rest, b_rest, k - 1);
    }
}

/// The order of the dictionary is transitive.
pub proof fn text_before_transitive(a: Seq<char>, b: Seq<char>, c: Seq<char>)
    requires
        text_before(a, b),
        text_before(b, c),
    ensures
        text_before(a, c),
    decreases a.len(),
{
    if a.len() > 0 && a[0] == b[0] && b[0] == c[0] {
        text_before_transitive(a.drop_first(), b.drop_first(), c.drop_first());
    }
}

/// No text comes before itself.
pub proof fn text_before_irreflexive(a: Seq<char>)
    ensures
        !text_before(a, a),
    decreases a.len(),
{
    if a.len() > 0 {
        text_before_irreflexive(a.drop_first());
    }
}

/// `needle` stands in `hay` at position `k`.
pub open spec fn occurs_at(hay: Seq<char>, needle: Seq<char>, k: int) -> bool {
    0 <= k && k + needle.len() <= hay.len() && hay.subrange(k, k + needle.len()) == needle
}

/// `needle` stands somewhere in `hay`.
pub open spec fn contains_text(hay: Seq<char>, needle: Seq<char>) -> bool {
    exists|k: int| occurs_at(hay, needle, k)
}

/// What stands in a text stands in every text around it.
pub proof fn contains_text_within(
    before: Seq<char>,
    hay: Seq<char>,
    after: Seq<char>,
    needle: Seq<char>,
)
    requires
        contains_text(hay, needle),
    ensures
        contains_text(before + hay + after, needle),
{
    let k = choose|k: int| occurs_at(hay, needle, k);
    let whole = before + hay + after;
    assert(whole.subrange(before.len() + k, before.len() + k + needle.len()) =~= hay.subrange(
        k,
        k + needle.len(),
    ));
    assert(occurs_at(whole, needle, before.len() + k));
}

/// What stands in a part of a text stands in the text.
pub proof fn contains_text_transitive(hay: Seq<char>, part: Seq<char>, needle: Seq<char>)
    requires
        contains_text(hay, part),
        contains_text(part, needle),
    ensures
        contains_text(hay, needle),
{
    let k = choose|k: int| occurs_at(hay, part, k);
    let m = choose|m: int| occurs_at(part, needle, m);
    let inner = hay.subrange(k + m, k + m + needle.len());
    assert forall|j: int| 0 <= j < needle.len() implies #[trigger] inner[j] == needle[j] by {
        assert(hay.subrange(k, k + part.len())[m + j] == part[m + j]);
        assert(part.subrange(m, m + needle.len())[j] == part[m + j]);
    }
    assert(inner =~= needle);
    assert(occurs_at(hay, needle, k + m));
}

/// Each part stands in the joined text.
pub proof fn join_contains_part(parts: Seq<Seq<char>>, sep: Seq<char>, i: int)
    requires
        0 <= i < parts.len(),
    ensures
        contains_text(join(parts, sep), parts[i]),
    decreases parts.len(),
{
    let empty = Seq::<char>::empty();
    if parts.len() == 1 {
        assert(parts[0].subrange(0, parts[0].len() as int) =~= parts[0]);
        assert(occurs_at(parts[0], parts[0], 0));
    } else if i == parts.len() - 1 {
        let last = parts.last();
        assert(last.subrange(0, last.len() as int) =~= last);
        assert(occurs_at(last, last, 0));
        contains_text_within(join(parts.drop_last(), sep) + sep, last, empty, last);
        assert(join(parts.drop_last(), sep) + sep + last + empty =~= join(parts, sep));
    } else {
        join_contains_part(parts.drop_last(), sep, i);
        contains_text_within(empty, join(parts.drop_last(), sep), sep + parts.last(), parts[i]);
        assert(empty + join(parts.drop_last(), sep) + (sep + parts.last()) =~= join(parts, sep));
    }
}

/// Extending the joined sequence by one more part.
pub proof fn join_push(parts: Seq<Seq<char>>, sep: Seq<char>, part: Seq<char>)
    ensures
        join(parts.push(part), sep) == if parts.len() == 0 {
            part
        } else {
            join(parts, sep) + sep + part
        },
{
    let extended = parts.push(part);
    assert(extended.drop_last() =~= parts);
    assert(extended.last() == part);
    if parts.len() == 0 {
        assert(extended[0] == part);
    }
}

/// The white space at the start of `text` ends at `k` when every position
/// before `k` holds white space and `k` does not.
pub proof fn blank_prefix_is(text: Seq<char>, k: int)
    requires
        0 <= k <= text.len(),
        forall|j: int| 0 <= j < k ==> is_blank(text[j]),
        k == text.len() || !is_blank(text[k]),
    ensures
        blank_prefix(text) == k,
    decreases text.len(),
{
    if text.len() > 0 && is_blank(text[0]) {
        blank_prefix_is(text.drop_first(), k - 1);
    }
}

/// The white space at the end of `text` starts at `k` when every position
/// from `k` on holds white space and the one before `k` does not.
pub proof fn blank_suffix_start_is(text: Seq<char>, k: int)
    requires
        0 <= k <= text.len(),
        forall|j: int| k <= j < text.len() ==> is_blank(text[j]),
        k == 0 || !is_blank(text[k - 1]),
    ensures
        blank_suffix_start(text) == k,
    decreases text.len(),
{
    if text.len() > 0 && is_blank(text.last()) {
        blank_suffix_start_is(text.drop_last(), k);
    }
}

/// Trimmed text neither starts nor ends with white space, and stands in the
/// text between white space only.
pub proof fn trimmed_is_tight(text: Seq<char>)
    ensures
        0 <= blank_prefix(text) <= text.len(),
        0 <= blank_suffix_start(text) <= text.len(),
        forall|j: int| 0 <= j < blank_prefix(text) ==> is_blank(text[j]),
        forall|j: int| blank_suffix_start(text) <= j < text.len() ==> is_blank(text[j]),
        trimmed(text).len() > 0 ==> !is_blank(trimmed(text).first()) && !is_blank(
            trimmed(text).last(),
        ),
    decreases text.len(),
{
    if text.len() > 0 {
        let tail = text.drop_first();
        let head = text.drop_last();
        trimmed_is_tight(tail);
        trimmed_is_tight(head);
        if is_blank(text[0]) {
            assert forall|j: int| 0 <= j < blank_prefix(text) implies is_blank(text[j]) by {
                if j > 0 {
                    assert(text[j] == tail[j - 1]);
                }
            }
        }
        if is_blank(text.last()) {
            assert forall|j: int| blank_suffix_start(text) <= j < text.len() implies is_blank(
                text[j],
            ) by {
                if j < head.len() {
                    assert(text[j] == head[j]);
                }
            }
        }
        blank_edges(text);
    }
}

/// The position where leading white space ends holds none, and neither does
/// the one before trailing white space.
proof fn blank_edges(text: Seq<char>)
    ensures
        0 <= blank_prefix(text) <= text.len(),
        0 <= blank_suffix_start(text) <= text.len(),
        blank_prefix(text) < text.len() ==> !is_blank(text[blank_prefix(text)]),
        blank_suffix_start(text) > 0 ==> !is_blank(text[blank_suffix_start(text) - 1]),
    decreases text.len(),
{
    if text.len() > 0 {
        let tail = text.drop_first();
        let head = text.drop_last();
        blank_edges(tail);
        blank_edges(head);
        if is_blank(text[0]) && blank_prefix(tail) < tail.len() {
            assert(tail[blank_prefix(tail)] == text[blank_prefix(tail) + 1]);
        }
        if is_blank(text.last()) && blank_suffix_start(head) > 0 {
            assert(head[blank_suffix_start(head) - 1] == text[blank_suffix_start(head) - 1]);
        }
    }
}

fn is_blank_char(c: char) -> (b: bool)
    ensures
        b == is_blank(c),
{
    c == ' ' || ('\t' <= c && c <= '\r') || c == '\u{85}' || c == '\u{a0}' || c == '\u{1680}' || (
    '\u{2000}' <= c && c <= '\u{200a}') || c == '\u{2028}' || c == '\u{2029}' || c == '\u{202f}'
        || c == '\u{205f}' || c == '\u{3000}'
}

/// `text` without the white space at its start and at its end.
pub fn trim(text: &str) -> (r: &str)
    ensures
        r@ == trimmed(text@),
{
    let len = text.unicode_len();
    let mut from: usize = 0;
    while from < len && is_blank_char(text.get_char(from))
        invariant
            from <= len,
            len == text@.len(),
            forall|j: int| 0 <= j < from ==> is_blank(text@[j]),
        decreases len - from,
    {
        from = from + 1;
    }
    let mut to: usize = len;
    while to > from && is_blank_char(text.get_char(to - 1))
        invariant
            from <= to <= len,
            len == text@.len(),
            forall|j: int| to <= j < len ==> is_blank(text@[j]),
        decreases to,
    {
        to = to - 1;
    }
    proof {
        blank_prefix_is(text@, from as int);
        blank_edges(text@);
        if from < len {
            blank_suffix_start_is(text@, to as int);
        }
    }
    text.substring_char(from, to)
}

fn digit_str(d: u64) -> (s: &'static str)
    requires
        d < 10,
    ensures
        s@ == seq![digit_char(d as nat)],
{
    proof {
        reveal_strlit("0");
        reveal_strlit("1");
        reveal_strlit("2");
        reveal_strlit("3");
        reveal_strlit("4");
        reveal_strlit("5");
        reveal_strlit("6");
        reveal_strlit("7");
        reveal_strlit("8");
        reveal_strlit("9");
    }
    let s = if d == 0 {
        "0"
    } else if d == 1 {
        "1"
    } else if d == 2 {
        "2"
    } else if d == 3 {
        "3"
    } else if d == 4 {
        "4"
    } else if d == 5 {
        "5"
    } else if d == 6 {
        "6"
    } else if d == 7 {
        "7"
    } else if d == 8 {
        "8"
    } else {
        "9"
    };
    assert(s@ =~= seq![digit_char(d as nat)]);
    s
}

/// Writes `n` in decimal notation.
pub fn decimal_string(n: u64) -> (s: String)
    ensures
        s@ == decimal(n as nat),
    decreases n,
{
    if n < 10 {
        String::from_str(digit_str(n))
    } else {
        let mut s = decimal_string(n / 10);
        s.append(digit_str(n % 10));
        s
    }
}

/// Joins the strings of `parts`, writing `sep` between neighbours.
pub fn join_strings(parts: &Vec<String>, sep: &str) -> (out: String)
    ensures
        out@ == join(texts(parts@), sep@),
{
    let mut out = String::new();
    let mut i: usize = 0;
    while i < parts.len()
        invariant
            i <= parts.len(),
            out@ == join(texts(parts@).take(i as int), sep@),
        decreases parts.len() - i,
    {
        proof {
            let all = texts(parts@);
            join_push(all.take(i as int), sep@, parts[i as int]@);
            assert(all.take(i as int).push(parts[i as int]@) =~= all.take(i as int + 1));
        }
        if i > 0 {
            out.append(sep);
        }
        out.append(parts[i].as_str());
        i = i + 1;
    }
    proof {
        assert(texts(parts@).take(i as int) =~= texts(parts@));
    }
    out
}

} // verus!
