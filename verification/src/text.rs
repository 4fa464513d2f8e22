//! Text and byte strings: their order, their lines, and how paths are put together.
use vstd::prelude::*;
use vstd::utf8::encode_utf8;

verus! {

/// How one value stands to another in an order.
#[derive(Clone, Copy, Debug, PartialEq, Eq, Structural)]
pub enum Order {
    Less,
    Equal,
    Greater,
}

/// `a` and `b` agree on their first `n` bytes, and there `a` either ends or has the smaller byte.
pub open spec fn smaller_at(a: Seq<u8>, b: Seq<u8>, n: int) -> bool {
    &&& 0 <= n <= a.len()
    &&& n < b.len()
    &&& a.take(n) == b.take(n)
    &&& n < a.len() ==> a[n] < b[n]
}

/// The dictionary order of byte strings.
pub open spec fn bytes_before(a: Seq<u8>, b: Seq<u8>) -> bool {
    exists|n: int| smaller_at(a, b, n)
}

/// The order of text: the dictionary order of its UTF-8 encoding.
pub open spec fn text_before(a: Seq<char>, b: Seq<char>) -> bool {
    bytes_before(encode_utf8(a), encode_utf8(b))
}

/// Byte strings are strictly ordered: no byte string comes before itself.
pub proof fn bytes_before_irreflexive(a: Seq<u8>)
    ensures
        !bytes_before(a, a),
{
}

/// The order of byte strings carries over chains.
pub proof fn bytes_before_transitive(a: Seq<u8>, b: Seq<u8>, c: Seq<u8>)
    requires
        bytes_before(a, b),
        bytes_before(b, c),
    ensures
        bytes_before(a, c),
{
    let n = choose|n: int| smaller_at(a, b, n);
    let m = choose|m: int| smaller_at(b, c, m);
    let k = if n < m { n } else { m };
    assert(a.take(n)[k] == b.take(n)[k] || k >= n);
    assert(b.take(m)[k] == c.take(m)[k] || k >= m);
    assert forall|i: int| 0 <= i < k implies a.take(k)[i] == c.take(k)[i] by {
        assert(a.take(n)[i] == b.take(n)[i]);
        assert(b.take(m)[i] == c.take(m)[i]);
    }
    assert(a.take(k) =~= c.take(k));
    assert(smaller_at(a, c, k));
}

/// Two different byte strings are ordered one way or the other.
pub proof fn bytes_before_total(a: Seq<u8>, b: Seq<u8>)
    ensures
        a == b || bytes_before(a, b) || bytes_before(b, a),
    decreases a.len(),
{
    let n = common_prefix(a, b);
    common_prefix_agrees(a, b);
    if n == a.len() && n == b.len() {
        assert(a.take(n) =~= a && b.take(n) =~= b);
    } else if n < b.len() && (n == a.len() || a[n] < b[n]) {
        assert(smaller_at(a, b, n));
    } else {
        assert(smaller_at(b, a, n));
    }
}

/// The length of the longest common prefix.
spec fn common_prefix(a: Seq<u8>, b: Seq<u8>) -> int
    decreases a.len(),
{
    if a.len() == 0 || b.len() == 0 || a[0] != b[0] {
        0
    } else {
        1 + common_prefix(a.drop_first(), b.drop_first())
    }
}

proof fn common_prefix_agrees(a: Seq<u8>, b: Seq<u8>)
    ensures
        ({
            let n = common_prefix(a, b);
            &&& 0 <= n <= a.len()
            &&& n <= b.len()
            &&& a.take(n) == b.take(n)
            &&& n < a.len() && n < b.len() ==> a[n] != b[n]
        }),
    decreases a.len(),
{
    let n = common_prefix(a, b);
    if !(a.len() == 0 || b.len() == 0 || a[0] != b[0]) {
        common_prefix_agrees(a.drop_first(), b.drop_first());
        let m = n - 1;
        assert forall|i: int| 0 <= i < n implies a.take(n)[i] == b.take(n)[i] by {
            if i > 0 {
                assert(a.drop_first().take(m)[i - 1] == b.drop_first().take(m)[i - 1]);
            }
        }
    }
    assert(a.take(n) =~= b.take(n));
}

/// Text is determined by its UTF-8 encoding.
pub proof fn encoding_is_faithful(a: Seq<char>, b: Seq<char>)
    ensures
        encode_utf8(a) == encode_utf8(b) <==> a == b,
{
    vstd::utf8::encode_utf8_decode_utf8(a);
    vstd::utf8::encode_utf8_decode_utf8(b);
}

/// Compares two byte strings in dictionary order.
pub fn compare_bytes(a: &[u8], b: &[u8]) -> (order: Order)
    ensures
        order == Order::Less <==> bytes_before(a@, b@),
        order == Order::Equal <==> a@ == b@,
        order == Order::Greater <==> bytes_before(b@, a@),
{
    let mut i: usize = 0;
    while i < a.len() && i < b.len() && a[i] == b[i]
        invariant
            i <= a@.len(),
            i <= b@.len(),
            a@.take(i as int) =~= b@.take(i as int),
        decreases a@.len() - i,
    {
        assert(a@.take(i + 1) =~= a@.take(i as int).push(a@[i as int]));
        assert(b@.take(i + 1) =~= b@.take(i as int).push(b@[i as int]));
        i += 1;
    }
    proof {
        bytes_before_irreflexive(a@);
        if bytes_before(a@, b@) && bytes_before(b@, a@) {
            bytes_before_transitive(a@, b@, a@);
        }
        assert(a@.take(a@.len() as int) =~= a@);
        assert(b@.take(b@.len() as int) =~= b@);
    }
    if i < b.len() && (i == a.len() || a[i] < b[i]) {
        assert(smaller_at(a@, b@, i as int));
        Order::Less
    } else if i < a.len() {
        assert(smaller_at(b@, a@, i as int));
        Order::Greater
    } else {
        Order::Equal
    }
}

/// Compares two texts by their UTF-8 encoding.
pub fn compare_text(a: &str, b: &str) -> (order: Order)
    ensures
        order == Order::Less <==> text_before(a@, b@),
        order == Order::Equal <==> a@ == b@,
        order == Order::Greater <==> text_before(b@, a@),
{
    proof {
        encoding_is_faithful(a@, b@);
    }
    compare_bytes(a.as_bytes(), b.as_bytes())
}

/// The characters of a text, one by one.
pub(crate) fn chars_of(text: &str) -> (chars: Vec<char>)
    ensures
        chars@ == text@,
{
    let mut chars: Vec<char> = Vec::new();
    for c in it: text.chars()
        invariant
            it.seq() == text@,
            chars@ == text@.take(it.index() as int),
    {
        assert(text@.take(it.index() + 1) =~= text@.take(it.index() as int).push(c));
        chars.push(c);
    }
    assert(text@.take(text@.len() as int) =~= text@);
    chars
}

/// Whether a text begins with another one.
pub fn starts_with(text: &str, prefix: &str) -> (found: bool)
    ensures
        found <==> prefix@.is_prefix_of(text@),
{
    let chars = chars_of(text);
    let expected = chars_of(prefix);
    if chars.len() < expected.len() {
        return false;
    }
    let mut i: usize = 0;
    while i < expected.len()
        invariant
            chars@ == text@,
            expected@ == prefix@,
            i <= expected@.len() <= chars@.len(),
            forall|j: int| 0 <= j < i ==> chars@[j] == expected@[j],
        decreases expected@.len() - i,
    {
        if chars[i] != expected[i] {
            assert(!expected@.is_prefix_of(chars@)) by {
                assert(chars@.subrange(0, expected@.len() as int)[i as int] == chars@[i as int]);
            }
            return false;
        }
        i += 1;
    }
    assert(chars@.subrange(0, expected@.len() as int) =~= expected@);
    true
}

/// Whether two texts are the same.
pub fn same_text(a: &str, b: &str) -> (same: bool)
    ensures
        same <==> a@ == b@,
{
    match compare_text(a, b) {
        Order::Equal => true,
        _ => false,
    }
}

/// What a list of texts stands for.
pub open spec fn texts(list: Seq<String>) -> Seq<Seq<char>> {
    list.map_values(|text: String| text@)
}

/// Where the first line of a text ends: at its first line feed, or at the end of the text.
pub open spec fn line_end(text: Seq<char>) -> int
    decreases text.len(),
{
    if text.len() == 0 || text[0] == '\n' {
        0
    } else {
        1 + line_end(text.drop_first())
    }
}

/// A line that a line feed ended, without the carriage return that may stand before the line feed.
pub open spec fn without_return(line: Seq<char>) -> Seq<char> {
    if line.len() > 0 && line.last() == '\r' {
        line.drop_last()
    } else {
        line
    }
}

/// The lines of a text. Each ends with a line feed or a carriage return and a line feed, which are
/// no part of it; the last one may end with the text instead.
pub open spec fn lines(text: Seq<char>) -> Seq<Seq<char>>
    decreases text.len(),
{
    let end = line_end(text);
    if text.len() == 0 {
        Seq::empty()
    } else if end < 0 || end >= text.len() {
        seq![text]
    } else {
        seq![without_return(text.take(end))] + lines(text.skip(end + 1))
    }
}

/// The first line ends where the first line feed stands.
pub proof fn line_ends_at(text: Seq<char>, end: int)
    requires
        0 <= end <= text.len(),
        forall|i: int| 0 <= i < end ==> text[i] != '\n',
        end < text.len() ==> text[end] == '\n',
    ensures
        line_end(text) == end,
    decreases text.len(),
{
    if end > 0 {
        line_ends_at(text.drop_first(), end - 1);
    }
}

/// Splits a text into its lines.
pub fn text_lines(text: &str) -> (list: Vec<String>)
    ensures
        texts(list@) == lines(text@),
{
    let chars = chars_of(text);
    let mut list: Vec<String> = Vec::new();
    let mut start: usize = 0;
    let mut at: usize = 0;
    assert(text@.skip(0) =~= text@);
    assert(texts(list@) + lines(text@) =~= lines(text@));
    while at < chars.len()
        invariant
            chars@ == text@,
            start <= at <= chars@.len(),
            forall|i: int| start <= i < at ==> chars@[i] != '\n',
            texts(list@) + lines(text@.skip(start as int)) == lines(text@),
        decreases chars@.len() - at,
    {
        if chars[at] == '\n' {
            let end = if at > start && chars[at - 1] == '\r' {
                at - 1
            } else {
                at
            };
            let line = text.substring_char(start, end);
            proof {
                let rest = text@.skip(start as int);
                let n = at - start;
                line_ends_at(rest, n);
                assert(rest.take(n).len() > 0 ==> rest.take(n).last() == chars@[at - 1]);
                assert(line@ =~= without_return(rest.take(n)));
                assert(rest.skip(n + 1) =~= text@.skip(at + 1));
            }
            let ghost before = list@;
            list.push(line.to_owned());
            proof {
                assert(texts(list@) =~= texts(before).push(line@));
                assert(texts(before) + (seq![line@] + lines(text@.skip(at + 1))) =~= texts(list@) + lines(
                    text@.skip(at + 1),
                ));
            }
            start = at + 1;
        }
        at += 1;
    }
    proof {
        let rest = text@.skip(start as int);
        line_ends_at(rest, rest.len() as int);
    }
    if start < chars.len() {
        let line = text.substring_char(start, chars.len());
        let ghost before = list@;
        list.push(line.to_owned());
        assert(line@ =~= text@.skip(start as int));
        assert(texts(list@) =~= texts(before) + seq![line@]);
    } else {
        assert(texts(list@) + Seq::<Seq<char>>::empty() =~= texts(list@));
    }
    list
}

/// Texts that hold no line end, each followed by a line feed, have those texts as their lines.
pub proof fn lines_of_joined(first: Seq<char>, rest: Seq<char>)
    requires
        !first.contains('\n'),
        !first.contains('\r'),
    ensures
        lines(first + seq!['\n'] + rest) == seq![first] + lines(rest),
{
    let whole = first + seq!['\n'] + rest;
    let n = first.len() as int;
    assert forall|i: int| 0 <= i < n implies whole[i] != '\n' by {
        assert(whole[i] == first[i]);
        assert(first.contains(first[i]));
    }
    line_ends_at(whole, n);
    assert(whole.take(n) =~= first);
    if n > 0 {
        assert(first.contains(first.last()));
    }
    assert(whole.skip(n + 1) =~= rest);
}

/// Whether a path leads from the root.
pub open spec fn is_absolute(path: Seq<char>) -> bool {
    path.len() > 0 && path[0] == '/'
}

/// A path with another one put behind it. An absolute path stands for itself; otherwise a slash parts
/// the two, unless one is there already or nothing stands before it.
pub open spec fn joined_path(base: Seq<char>, path: Seq<char>) -> Seq<char> {
    if is_absolute(path) {
        path
    } else if base.len() == 0 || base.last() == '/' {
        base + path
    } else {
        base + seq!['/'] + path
    }
}

/// Puts a path behind another one.
pub fn join_path(base: &str, path: &str) -> (joined: String)
    ensures
        joined@ == joined_path(base@, path@),
{
    let front = chars_of(base);
    let back = chars_of(path);
    if back.len() > 0 && back[0] == '/' {
        path.to_owned()
    } else if front.len() == 0 || front[front.len() - 1] == '/' {
        base.to_owned().concat(path)
    } else {
        proof {
            reveal_strlit("/");
            assert("/"@ =~= seq!['/']);
        }
        base.to_owned().concat("/").concat(path)
    }
}

/// Where two byte strings first differ, the smaller byte decides, whatever follows it.
pub proof fn first_difference_decides(front: Seq<u8>, smaller: u8, larger: u8, rest: Seq<u8>, other_rest: Seq<u8>)
    requires
        smaller < larger,
    ensures
        bytes_before(front + seq![smaller] + rest, front + seq![larger] + other_rest),
        !bytes_before(front + seq![larger] + other_rest, front + seq![smaller] + rest),
{
    let (a, b) = (front + seq![smaller] + rest, front + seq![larger] + other_rest);
    let n = front.len() as int;
    assert(a.take(n) =~= b.take(n));
    assert(smaller_at(a, b, n));
    if bytes_before(b, a) {
        bytes_before_transitive(a, b, a);
        bytes_before_irreflexive(a);
    }
}

/// A byte string comes before every longer one that begins with it.
pub proof fn front_comes_first(front: Seq<u8>, rest: Seq<u8>)
    requires
        rest.len() > 0,
    ensures
        bytes_before(front, front + rest),
        !bytes_before(front + rest, front),
{
    let whole = front + rest;
    let n = front.len() as int;
    assert(front.take(n) =~= whole.take(n));
    assert(smaller_at(front, whole, n));
    if bytes_before(whole, front) {
        bytes_before_transitive(front, whole, front);
        bytes_before_irreflexive(front);
    }
}

/// Texts are ordered as the bytes are that encode them.
pub proof fn text_order_is_that_of_bytes(a: Seq<char>, b: Seq<char>)
    ensures
        text_before(a, b) <==> bytes_before(encode_utf8(a), encode_utf8(b)),
{
}

/// A list of texts stands for what each of them stands for.
pub proof fn texts_stand_for_themselves(list: Seq<String>, at: int)
    requires
        0 <= at < list.len(),
    ensures
        texts(list).len() == list.len(),
        texts(list)[at] == list[at]@,
{
}

/// A text without a line feed is one line, carriage returns included; an empty text has no line.
pub proof fn text_without_line_feed_is_one_line(text: Seq<char>)
    requires
        !text.contains('\n'),
    ensures
        lines(text) == if text.len() == 0 {
            Seq::<Seq<char>>::empty()
        } else {
            seq![text]
        },
{
    assert forall|i: int| 0 <= i < text.len() implies text[i] != '\n' by {
        assert(text.contains(text[i]));
    }
    line_ends_at(text, text.len() as int);
}

/// A line feed ends a line. One carriage return before it belongs to the line end; the rest of the
/// text has the lines that it has by itself.
pub proof fn line_feed_ends_a_line(line: Seq<char>, rest: Seq<char>)
    requires
        !line.contains('\n'),
    ensures
        lines(line + seq!['\r', '\n'] + rest) == seq![line] + lines(rest),
        line.len() == 0 || line.last() != '\r' ==> lines(line + seq!['\n'] + rest) == seq![line] + lines(rest),
{
    let returned = line + seq!['\r', '\n'] + rest;
    let n = line.len() as int;
    assert forall|i: int| 0 <= i < n implies #[trigger] line[i] != '\n' by {
        assert(line.contains(line[i]));
    }
    line_ends_at(returned, n + 1);
    assert(returned.take(n + 1) =~= line.push('\r'));
    assert(line.push('\r').drop_last() =~= line);
    assert(returned.skip(n + 2) =~= rest);
    let whole = line + seq!['\n'] + rest;
    line_ends_at(whole, n);
    assert(whole.take(n) =~= line);
    assert(whole.skip(n + 1) =~= rest);
}

/// A path leads from the root exactly if a slash is its first character.
pub proof fn root_is_a_slash(first: char, rest: Seq<char>)
    ensures
        is_absolute(seq![first] + rest) <==> first == '/',
        !is_absolute(Seq::<char>::empty()),
{
}

/// A path that leads from the root is not changed by what it is put behind. Any other stands behind
/// the whole of it, after exactly one slash more, or after none where one is there or nothing is.
pub proof fn paths_are_put_together(base: Seq<char>, path: Seq<char>)
    ensures
        path.len() > 0 && path[0] == '/' ==> joined_path(base, path) == path,
        !(path.len() > 0 && path[0] == '/') ==> {
            &&& base.len() == 0 ==> joined_path(base, path) == path
            &&& base.len() > 0 && base.last() == '/' ==> joined_path(base, path) == base + path
            &&& base.len() > 0 && base.last() != '/' ==> joined_path(base, path) == base.push('/') + path
        },
{
    assert(base.push('/') + path =~= base + seq!['/'] + path);
    if base.len() == 0 {
        assert(base + path =~= path);
    }
}

} // verus!
