//! What the operations on texts, documents and paths mean, each told from what it takes apart or puts
//! together.

use vstd::prelude::*;

use crate::json;
use crate::json::JsonView;
use crate::names;
use crate::outside;
use crate::path;
use crate::path::PathPart;
use crate::profile;
use crate::text;

verus! {

// ---------------------------------------------------------------------------
// Texts
// ---------------------------------------------------------------------------

/// A text is cut in two at the first separator, which is dropped; without one it is not cut.
pub proof fn law_cut_in_two(s: Seq<char>, c: char)
    ensures
        match text::spec_split_once(s, c) {
            Some((head, tail)) => s == head + seq![c] + tail && !head.contains(c),
            None => !s.contains(c),
        },
{
    text::lemma_find(s, c);
    if s.contains(c) {
        let at = text::spec_find(s, c);
        assert(s =~= s.take(at) + seq![c] + s.skip(at + 1));
    }
}

/// Two texts with a separator between them are cut into just these two, if the first has none.
pub proof fn law_cut_what_was_joined(head: Seq<char>, tail: Seq<char>, c: char)
    requires
        !head.contains(c),
    ensures
        text::spec_split_once(head + seq![c] + tail, c) == Some((head, tail)),
{
    let s = head + seq![c] + tail;
    let at = head.len() as int;
    assert(s[at] == c);
    assert forall|j: int| 0 <= j < at implies s[j] != c by {
        assert(head.contains(head[j]));
        assert(s[j] == head[j]);
    }
    text::lemma_find_at(s, c, at);
    assert(s.take(at) =~= head);
    assert(s.skip(at + 1) =~= tail);
}

proof fn lemma_join_front(pieces: Seq<Seq<char>>, separator: Seq<char>)
    requires
        pieces.len() > 1,
    ensures
        text::spec_join(pieces, separator) == pieces[0] + separator + text::spec_join(
            pieces.skip(1),
            separator,
        ),
    decreases pieces.len(),
{
    let front = pieces.drop_last();
    let rest = pieces.skip(1);
    if pieces.len() == 2 {
        assert(text::spec_join(front, separator) == pieces[0]);
        assert(text::spec_join(rest, separator) == pieces[1]);
    } else {
        lemma_join_front(front, separator);
        assert(front.skip(1) =~= rest.drop_last());
        assert(text::spec_join(pieces, separator) =~= pieces[0] + separator + text::spec_join(
            rest,
            separator,
        ));
    }
}

/// Joining the pieces of a text by the separator gives the text back, and no piece holds the
/// separator.
pub proof fn law_pieces_make_the_text(s: Seq<char>, c: char)
    ensures
        text::spec_join(text::spec_split(s, c), seq![c]) == s,
        forall|i: int|
            0 <= i < text::spec_split(s, c).len() ==> !(#[trigger] text::spec_split(
                s,
                c,
            )[i]).contains(c),
    decreases s.len(),
{
    let pieces = text::spec_split(s, c);
    path::lemma_split_unfold(s, c);
    text::lemma_find(s, c);
    if s.contains(c) {
        let at = text::spec_find(s, c);
        let head = s.take(at);
        let tail = s.skip(at + 1);
        law_pieces_make_the_text(tail, c);
        path::lemma_split_unfold(tail, c);
        assert(pieces.skip(1) =~= text::spec_split(tail, c));
        lemma_join_front(pieces, seq![c]);
        assert(s =~= head + seq![c] + tail);
        assert forall|i: int| 0 <= i < pieces.len() implies !(#[trigger] pieces[i]).contains(c) by {
            if i > 0 {
                assert(pieces[i] == text::spec_split(tail, c)[i - 1]);
            }
        }
    }
}

/// Splitting what was joined gives the pieces back, if none of them holds the separator.
pub proof fn law_joined_pieces_come_apart(pieces: Seq<Seq<char>>, c: char)
    requires
        pieces.len() > 0,
        forall|i: int| 0 <= i < pieces.len() ==> !(#[trigger] pieces[i]).contains(c),
    ensures
        text::spec_split(text::spec_join(pieces, seq![c]), c) == pieces,
    decreases pieces.len(),
{
    path::lemma_split_unfold(pieces.last(), c);
    if pieces.len() > 1 {
        let front = pieces.drop_last();
        assert forall|i: int| 0 <= i < front.len() implies !(#[trigger] front[i]).contains(c) by {
            assert(front[i] == pieces[i]);
        }
        law_joined_pieces_come_apart(front, c);
        path::lemma_split_joined(text::spec_join(front, seq![c]), pieces.last(), c);
        assert(front + seq![pieces.last()] =~= pieces);
    } else {
        assert(pieces =~= seq![pieces[0]]);
    }
}

/// A piece behind others is joined to them by the separator; one alone is the whole.
pub proof fn law_joined_one_by_one(
    pieces: Seq<Seq<char>>,
    piece: Seq<char>,
    separator: Seq<char>,
)
    ensures
        text::spec_join(seq![piece], separator) == piece,
        pieces.len() > 0 ==> text::spec_join(pieces.push(piece), separator) == text::spec_join(
            pieces,
            separator,
        ) + separator + piece,
        text::spec_join(Seq::empty(), separator).len() == 0,
{
    assert(pieces.push(piece).drop_last() =~= pieces);
}

/// Whether all characters of a text are white space.
pub open spec fn blank(s: Seq<char>) -> bool {
    forall|i: int| 0 <= i < s.len() ==> text::spec_whitespace(#[trigger] s[i])
}

proof fn lemma_trim_start(s: Seq<char>)
    ensures
        exists|n: int|
            0 <= n <= s.len() && blank(#[trigger] s.take(n)) && text::spec_trim_start(s) == s.skip(
                n,
            ),
        text::spec_trim_start(s).len() > 0 ==> !text::spec_whitespace(text::spec_trim_start(s)[0]),
    decreases s.len(),
{
    if s.len() > 0 && text::spec_whitespace(s[0]) {
        let t = s.skip(1);
        lemma_trim_start(t);
        let n = choose|n: int|
            0 <= n <= t.len() && blank(#[trigger] t.take(n)) && text::spec_trim_start(t) == t.skip(
                n,
            );
        let more = s.take(n + 1);
        assert forall|i: int| 0 <= i < more.len() implies text::spec_whitespace(
            #[trigger] more[i],
        ) by {
            if i > 0 {
                assert(more[i] == t.take(n)[i - 1]);
            }
        }
        assert(t.skip(n) =~= s.skip(n + 1));
    } else {
        assert(blank(s.take(0)));
        assert(s.skip(0) =~= s);
    }
}

proof fn lemma_trim_end(s: Seq<char>)
    ensures
        exists|n: int|
            0 <= n <= s.len() && blank(#[trigger] s.skip(n)) && text::spec_trim_end(s) == s.take(n),
        text::spec_trim_end(s).len() > 0 ==> !text::spec_whitespace(text::spec_trim_end(s).last()),
    decreases s.len(),
{
    if s.len() > 0 && text::spec_whitespace(s.last()) {
        let t = s.drop_last();
        lemma_trim_end(t);
        let n = choose|n: int|
            0 <= n <= t.len() && blank(#[trigger] t.skip(n)) && text::spec_trim_end(t) == t.take(n);
        let more = s.skip(n);
        assert forall|i: int| 0 <= i < more.len() implies text::spec_whitespace(
            #[trigger] more[i],
        ) by {
            if i < more.len() - 1 {
                assert(more[i] == t.skip(n)[i]);
            }
        }
        assert(t.take(n) =~= s.take(n));
    } else {
        assert(blank(s.skip(s.len() as int)));
        assert(s.take(s.len() as int) =~= s);
    }
}

/// Trimming takes white space off both ends and nothing else, until none is left there.
pub proof fn law_trimmed(s: Seq<char>)
    ensures
        exists|a: int, b: int|
            0 <= a <= b <= s.len() && blank(#[trigger] s.take(a)) && blank(#[trigger] s.skip(b))
                && text::spec_trim(s) == s.subrange(a, b),
        text::spec_trim(s).len() > 0 ==> {
            &&& !text::spec_whitespace(text::spec_trim(s)[0])
            &&& !text::spec_whitespace(text::spec_trim(s).last())
        },
{
    lemma_trim_start(s);
    let t = text::spec_trim_start(s);
    lemma_trim_end(t);
    let a = choose|n: int| 0 <= n <= s.len() && blank(#[trigger] s.take(n)) && t == s.skip(n);
    let k = choose|n: int|
        0 <= n <= t.len() && blank(#[trigger] t.skip(n)) && text::spec_trim_end(t) == t.take(n);
    assert(t.skip(k) =~= s.skip(a + k));
    assert(t.take(k) =~= s.subrange(a, a + k));
    assert(blank(s.take(a)) && blank(s.skip(a + k)));
    if text::spec_trim(s).len() > 0 {
        assert(text::spec_trim(s)[0] == t[0]);
    }
}

/// White space is what separates words and lines: tabs, line ends, blanks of every width, and nothing
/// that is printed.
pub proof fn law_white_space(c: char)
    ensures
        text::spec_whitespace(c) <==> {
            ||| '\t' <= c <= '\r'
            ||| c == ' '
            ||| c == '\u{85}'
            ||| c == '\u{a0}'
            ||| c == '\u{1680}'
            ||| '\u{2000}' <= c <= '\u{200a}'
            ||| c == '\u{2028}'
            ||| c == '\u{2029}'
            ||| c == '\u{202f}'
            ||| c == '\u{205f}'
            ||| c == '\u{3000}'
        },
        c == ' ' || c == '\t' || c == '\n' || c == '\r' ==> text::spec_whitespace(c),
        '!' <= c <= '~' ==> !text::spec_whitespace(c),
{
}

/// Taking a prefix or a suffix off leaves what stands behind or before it, and nothing else has it.
pub proof fn law_stripped(s: Seq<char>, part: Seq<char>)
    ensures
        text::spec_strip_prefix(part + s, part) == Some(s),
        text::spec_strip_suffix(s + part, part) == Some(s),
        text::spec_strip_prefix(s, part) matches Some(rest) ==> s == part + rest,
        text::spec_strip_suffix(s, part) matches Some(rest) ==> s == rest + part,
{
    assert((part + s).take(part.len() as int) =~= part);
    assert((part + s).skip(part.len() as int) =~= s);
    assert((s + part).skip(s.len() as int) =~= part);
    assert((s + part).take(s.len() as int) =~= s);
    if part.len() <= s.len() {
        assert(s =~= s.take(part.len() as int) + s.skip(part.len() as int));
        assert(s =~= s.take(s.len() - part.len()) + s.skip(s.len() - part.len()));
    }
}

/// A text occurs in another just if that is the text with something before and behind it.
pub proof fn law_occurs(s: Seq<char>, needle: Seq<char>, a: Seq<char>, b: Seq<char>)
    ensures
        text::occurs_in(a + needle + b, needle),
        text::occurs_in(s, needle) ==> exists|i: int|
            0 <= i <= s.len() - needle.len() && s == #[trigger] s.take(i) + needle + s.skip(
                i + needle.len(),
            ),
{
    let whole = a + needle + b;
    let at = a.len() as int;
    assert(whole.subrange(at, at + needle.len()) =~= needle);
    assert(text::occurs_at(whole, needle, at));
    if text::occurs_in(s, needle) {
        let i = choose|i: int| text::occurs_at(s, needle, i);
        assert(s =~= s.take(i) + needle + s.skip(i + needle.len()));
    }
}

/// The number that decimal digits stand for.
pub open spec fn number_of(digits: Seq<char>) -> int
    decreases digits.len(),
{
    if digits.len() == 0 {
        0
    } else {
        10 * number_of(digits.drop_last()) + (digits.last() as int - '0' as int)
    }
}

/// A number in decimal is made of digits, without a zero in front of others, and reads as that
/// number.
pub proof fn law_decimal_reads_back(n: nat)
    ensures
        text::spec_decimal(n).len() > 0,
        forall|i: int|
            0 <= i < text::spec_decimal(n).len() ==> '0' <= #[trigger] text::spec_decimal(n)[i]
                <= '9',
        number_of(text::spec_decimal(n)) == n,
        n > 0 ==> text::spec_decimal(n)[0] != '0',
    decreases n,
{
    let digits = text::spec_decimal(n);
    if n >= 10 {
        law_decimal_reads_back(n / 10);
        assert(digits.drop_last() =~= text::spec_decimal(n / 10));
        assert(digits[0] == text::spec_decimal(n / 10)[0]);
        assert(digits.last() as int - '0' as int == n % 10);
        assert forall|i: int| 0 <= i < digits.len() implies '0' <= #[trigger] digits[i] <= '9' by {
            if i < digits.len() - 1 {
                assert(digits[i] == text::spec_decimal(n / 10)[i]);
            }
        }
    } else {
        assert(digits.drop_last() =~= Seq::<char>::empty());
        assert(number_of(digits.drop_last()) == 0);
    }
}

/// The value of a hexadecimal digit.
pub open spec fn hex_value(c: char) -> int {
    if '0' <= c <= '9' {
        c as int - '0' as int
    } else {
        10 + (c as int - 'a' as int)
    }
}

/// Each byte is told by two hexadecimal digits, the high one first.
pub proof fn law_hex_reads_back(bytes: Seq<u8>, i: int)
    requires
        0 <= i < bytes.len(),
    ensures
        text::spec_hex(bytes).len() == 2 * bytes.len(),
        16 * hex_value(text::spec_hex(bytes)[2 * i]) + hex_value(text::spec_hex(bytes)[2 * i + 1])
            == bytes[i],
        0 <= hex_value(text::spec_hex(bytes)[2 * i]) < 16,
        0 <= hex_value(text::spec_hex(bytes)[2 * i + 1]) < 16,
{
    assert(2 * i / 2 == i && 2 * i % 2 == 0);
    assert((2 * i + 1) / 2 == i && (2 * i + 1) % 2 == 1);
    assert(bytes[i] == 16 * (bytes[i] / 16) + bytes[i] % 16);
}

/// Texts are ordered by the first character in which they differ, and a beginning comes before the
/// whole.
pub proof fn law_order_of_texts(
    common: Seq<char>,
    x: char,
    y: char,
    a: Seq<char>,
    b: Seq<char>,
)
    ensures
        x < y ==> text::text_before(common + seq![x] + a, common + seq![y] + b),
        text::text_before(common, common + seq![x] + a),
        !text::text_before(common, common),
    decreases common.len(),
{
    if common.len() > 0 {
        let rest = common.skip(1);
        law_order_of_texts(rest, x, y, a, b);
        assert((common + seq![x] + a).skip(1) =~= rest + seq![x] + a);
        assert((common + seq![y] + b).skip(1) =~= rest + seq![y] + b);
    }
}

/// Names are listed in their order, each quoted, between braces and with commas between them.
pub proof fn law_listed_names(list: Seq<Seq<char>>)
    requires
        forall|i: int, j: int|
            0 <= i < j < list.len() ==> text::text_before(#[trigger] list[i], #[trigger] list[j]),
    ensures
        profile::spec_listing(list.to_set()) == "{"@ + text::spec_join(
            list.map_values(|name: Seq<char>| outside::quoted(name)),
            ", "@,
        ) + "}"@,
{
    assert(names::ascending(list) && list.to_set() == list.to_set());
    names::lemma_ascending_unique(list, names::in_order(list.to_set()));
}

// ---------------------------------------------------------------------------
// Documents
// ---------------------------------------------------------------------------

/// A member is looked up by its name, and the first of that name counts.
pub proof fn law_first_member_counts(
    members: Seq<(Seq<char>, JsonView)>,
    name: Seq<char>,
    i: int,
)
    requires
        0 <= i < members.len(),
        members[i].0 == name,
        forall|j: int| 0 <= j < i ==> (#[trigger] members[j]).0 != name,
    ensures
        JsonView::Object(members).get(name) == Some(members[i].1),
    decreases members.len(),
{
    if i > 0 {
        let rest = members.skip(1);
        assert(members[0].0 != name);
        assert forall|j: int| 0 <= j < i - 1 implies (#[trigger] rest[j]).0 != name by {
            assert(rest[j] == members[j + 1]);
        }
        law_first_member_counts(rest, name, i - 1);
        assert(json::lookup(rest, name) == Some(members[i].1));
    }
}

/// A name that no member has is not found, and nothing is found in what is no object.
pub proof fn law_missing_members(document: JsonView, name: Seq<char>)
    requires
        document matches JsonView::Object(members) ==> forall|j: int|
            0 <= j < members.len() ==> (#[trigger] members[j]).0 != name,
    ensures
        document.get(name) is None,
    decreases document->Object_0.len(),
{
    if let JsonView::Object(members) = document {
        if members.len() > 0 {
            let rest = members.skip(1);
            assert(members[0].0 != name);
            assert forall|j: int| 0 <= j < rest.len() implies (#[trigger] rest[j]).0 != name by {
                assert(rest[j] == members[j + 1]);
            }
            law_missing_members(JsonView::Object(rest), name);
        }
    }
}

/// A member is read as a text or a flag just if it is one, and through another member just as it
/// stands there.
pub proof fn law_members_are_read_as_they_are(
    document: JsonView,
    outer: Seq<char>,
    name: Seq<char>,
    value: Seq<char>,
    flag: bool,
)
    ensures
        document.text(name) == Some(value) <==> document.get(name) == Some(JsonView::Text(value)),
        document.flag(name) == Some(flag) <==> document.get(name) == Some(JsonView::Bool(flag)),
        document.get(outer) matches Some(inner) ==> document.nested(outer, name) == inner.get(name),
        document.get(outer) is None ==> document.nested(outer, name) is None,
{
}

/// Putting a member in replaces the first of its name where it stands.
pub proof fn law_put_replaces_in_place(
    members: Seq<(Seq<char>, JsonView)>,
    name: Seq<char>,
    value: JsonView,
    i: int,
)
    requires
        0 <= i < members.len(),
        members[i].0 == name,
        forall|j: int| 0 <= j < i ==> (#[trigger] members[j]).0 != name,
    ensures
        json::spec_put(members, name, value) == members.update(i, (name, value)),
    decreases members.len(),
{
    let rest = members.skip(1);
    if i == 0 {
        assert(seq![(name, value)] + rest =~= members.update(0, (name, value)));
    } else {
        assert(members[0].0 != name);
        assert forall|j: int| 0 <= j < i - 1 implies (#[trigger] rest[j]).0 != name by {
            assert(rest[j] == members[j + 1]);
        }
        law_put_replaces_in_place(rest, name, value, i - 1);
        assert(seq![members[0]] + rest.update(i - 1, (name, value)) =~= members.update(
            i,
            (name, value),
        ));
    }
}

/// Putting a member in adds it behind the others where none has its name; then it is found, and the
/// other members are found as before.
pub proof fn law_put_replaces_or_adds(
    members: Seq<(Seq<char>, JsonView)>,
    name: Seq<char>,
    value: JsonView,
)
    ensures
        ({
            let put = json::spec_put(members, name, value);
            &&& JsonView::Object(put).get(name) == Some(value)
            &&& JsonView::Object(members).get(name) is None ==> put == members.push((name, value))
            &&& JsonView::Object(members).get(name) is Some ==> put.len() == members.len()
        }),
        forall|other: Seq<char>|
            other != name ==> #[trigger] JsonView::Object(json::spec_put(members, name, value)).get(
                other,
            ) == JsonView::Object(members).get(other),
    decreases members.len(),
{
    json::lemma_put(members, name, value);
    if members.len() > 0 && members[0].0 != name {
        law_put_replaces_or_adds(members.skip(1), name, value);
        assert(seq![members[0]] + members.skip(1).push((name, value)) =~= members.push(
            (name, value),
        ));
    } else if members.len() == 0 {
        assert(members.push((name, value)) =~= seq![(name, value)]);
    }
}

// ---------------------------------------------------------------------------
// Paths
// ---------------------------------------------------------------------------

/// Components lie within others just if they begin with them.
pub proof fn law_within_is_behind(root: Seq<PathPart>, rest: Seq<PathPart>, all: Seq<PathPart>)
    ensures
        path::within(root + rest, root),
        path::within(all, root) ==> all == root + all.skip(root.len() as int),
{
    assert((root + rest).take(root.len() as int) =~= root);
    if path::within(all, root) {
        assert(all =~= root + all.skip(root.len() as int));
    }
}

proof fn lemma_normalize_tail(a: Seq<PathPart>, b: Seq<PathPart>, rest: Seq<PathPart>)
    requires
        path::spec_normalize(a) == path::spec_normalize(b),
    ensures
        path::spec_normalize(a + rest) == path::spec_normalize(b + rest),
    decreases rest.len(),
{
    if rest.len() == 0 {
        assert(a + rest =~= a);
        assert(b + rest =~= b);
    } else {
        let less = rest.drop_last();
        lemma_normalize_tail(a, b, less);
        assert((a + rest).drop_last() =~= a + less);
        assert((b + rest).drop_last() =~= b + less);
        assert((a + rest).last() == rest.last());
        assert((b + rest).last() == rest.last());
    }
}

/// A name with a step back behind it can be left out of a path, and so can the current directory.
pub proof fn law_detours_cancel(front: Seq<PathPart>, name: Seq<char>, rest: Seq<PathPart>)
    ensures
        path::spec_normalize(
            front + seq![PathPart::Normal(name), PathPart::ParentDir] + rest,
        ) == path::spec_normalize(front + rest),
        path::spec_normalize(front + seq![PathPart::CurDir] + rest) == path::spec_normalize(
            front + rest,
        ),
{
    let there = front.push(PathPart::Normal(name));
    let back = there.push(PathPart::ParentDir);
    assert(there.drop_last() =~= front);
    assert(back.drop_last() =~= there);
    if let Some(done) = path::spec_normalize(front) {
        let more = done.push(PathPart::Normal(name));
        assert(more.drop_last() =~= done);
        assert(path::spec_normalize(there) == Some(more));
        assert(path::spec_normalize(back) == Some(more.drop_last()));
    } else {
        assert(path::spec_normalize(there) is None);
    }
    assert(path::spec_normalize(back) == path::spec_normalize(front));
    lemma_normalize_tail(back, front, rest);
    assert(back + rest =~= front + seq![PathPart::Normal(name), PathPart::ParentDir] + rest);
    let here = front.push(PathPart::CurDir);
    assert(here.drop_last() =~= front);
    lemma_normalize_tail(here, front, rest);
    assert(here + rest =~= front + seq![PathPart::CurDir] + rest);
}

proof fn lemma_normalize_stuck(front: Seq<PathPart>, rest: Seq<PathPart>)
    requires
        path::spec_normalize(front) is None,
    ensures
        path::spec_normalize(front + rest) is None,
    decreases rest.len(),
{
    if rest.len() == 0 {
        assert(front + rest =~= front);
    } else {
        lemma_normalize_stuck(front, rest.drop_last());
        assert((front + rest).drop_last() =~= front + rest.drop_last());
    }
}

/// A path that steps back from the root, or from where it starts, has no normal form.
pub proof fn law_no_way_above_the_root(rest: Seq<PathPart>)
    ensures
        path::spec_normalize(seq![PathPart::RootDir, PathPart::ParentDir] + rest) is None,
        path::spec_normalize(seq![PathPart::ParentDir] + rest) is None,
{
    reveal_with_fuel(path::spec_normalize, 4);
    let root = seq![PathPart::RootDir];
    let above = seq![PathPart::RootDir, PathPart::ParentDir];
    let up = seq![PathPart::ParentDir];
    assert(root.drop_last() =~= Seq::<PathPart>::empty());
    assert(above.drop_last() =~= root);
    assert(up.drop_last() =~= Seq::<PathPart>::empty());
    assert(path::spec_normalize(root) == Some(root));
    assert(path::spec_normalize(above) is None);
    assert(path::spec_normalize(up) is None);
    lemma_normalize_stuck(above, rest);
    lemma_normalize_stuck(up, rest);
}

/// Behind a slash a path goes on by one component: two dots step back, a name goes down, and one dot
/// or nothing stays.
pub proof fn law_components_behind_a_slash(base: Seq<char>, name: Seq<char>)
    requires
        base.len() > 0,
        path::plain_name(name),
    ensures
        path::spec_components(base + seq!['/'] + name) == path::spec_components(base).push(
            PathPart::Normal(name),
        ),
        path::spec_components(base + seq!['/', '.', '.']) == path::spec_components(base).push(
            PathPart::ParentDir,
        ),
        path::spec_components(base + seq!['/', '.']) == path::spec_components(base),
        path::spec_components(base + seq!['/']) == path::spec_components(base),
{
    lemma_one_more_piece(base, name);
    lemma_one_more_piece(base, seq!['.', '.']);
    lemma_one_more_piece(base, seq!['.']);
    lemma_one_more_piece(base, Seq::empty());
    assert(base + seq!['/'] + seq!['.', '.'] =~= base + seq!['/', '.', '.']);
    assert(base + seq!['/'] + seq!['.'] =~= base + seq!['/', '.']);
    assert(base + seq!['/'] + Seq::<char>::empty() =~= base + seq!['/']);
    let all = path::spec_components(base);
    assert(seq!['.', '.'].len() == 2 && seq!['.'].len() == 1);
    assert(all + seq![PathPart::Normal(name)] =~= all.push(PathPart::Normal(name)));
    assert(all + seq![PathPart::ParentDir] =~= all.push(PathPart::ParentDir));
    assert(all + Seq::<PathPart>::empty() =~= all);
}

proof fn lemma_one_more_piece(base: Seq<char>, piece: Seq<char>)
    requires
        base.len() > 0,
        !piece.contains('/'),
    ensures
        path::spec_components(base + seq!['/'] + piece) == path::spec_components(base)
            + path::piece_parts(piece, false),
{
    let longer = base + seq!['/'] + piece;
    assert(longer[0] == base[0]);
    let absolute = path::spec_absolute(base);
    path::lemma_split_joined(base, piece, '/');
    path::lemma_split_unfold(piece, '/');
    path::lemma_split_unfold(base, '/');
    let pieces = text::spec_split(base, '/');
    assert(text::spec_split(longer, '/') =~= pieces.push(piece));
    assert(pieces.push(piece).drop_last() =~= pieces);
    assert(path::spec_components(longer) =~= path::spec_components(base) + path::piece_parts(
        piece,
        false,
    ));
}

/// The root has no component but itself, and an empty path has none.
pub proof fn law_components_of_the_root()
    ensures
        path::spec_components(seq!['/']) == seq![PathPart::RootDir],
        path::spec_components(Seq::empty()) == Seq::<PathPart>::empty(),
{
    let nothing = Seq::<char>::empty();
    reveal_with_fuel(path::pieces_parts, 3);
    assert(nothing + seq!['/'] + nothing =~= seq!['/']);
    path::lemma_split_joined(nothing, nothing, '/');
    path::lemma_split_unfold(nothing, '/');
    let pieces = text::spec_split(seq!['/'], '/');
    assert(pieces =~= seq![nothing, nothing]);
    assert(pieces.drop_last() =~= seq![nothing]);
    assert(seq![nothing].drop_last() =~= Seq::<Seq<char>>::empty());
    assert(path::spec_components(seq!['/']) =~= seq![PathPart::RootDir]);
    assert(path::spec_components(nothing) =~= Seq::<PathPart>::empty());
}

/// A single piece is one component: a name goes down, two dots step back, one dot stays where it is.
/// Behind a leading slash it stands below the root.
pub proof fn law_components_of_one_piece(name: Seq<char>)
    requires
        path::plain_name(name),
    ensures
        path::spec_components(name) == seq![PathPart::Normal(name)],
        path::spec_components(seq!['.', '.']) == seq![PathPart::ParentDir],
        path::spec_components(seq!['.']) == seq![PathPart::CurDir],
        path::spec_components(seq!['/'] + name) == seq![PathPart::RootDir, PathPart::Normal(name)],
        path::spec_components(seq!['/', '.', '.']) == seq![PathPart::RootDir, PathPart::ParentDir],
        path::spec_components(seq!['/', '.']) == seq![PathPart::RootDir],
{
    let up = seq!['.', '.'];
    let here = seq!['.'];
    assert(!up.contains('/'));
    assert(!here.contains('/'));
    assert(up.len() == 2 && here.len() == 1);
    lemma_only_piece(name);
    lemma_only_piece(up);
    lemma_only_piece(here);
    assert(seq!['/'] + up =~= seq!['/', '.', '.']);
    assert(seq!['/'] + here =~= seq!['/', '.']);
    let root = seq![PathPart::RootDir];
    assert(root + seq![PathPart::Normal(name)] =~= seq![PathPart::RootDir, PathPart::Normal(name)]);
    assert(root + seq![PathPart::ParentDir] =~= seq![PathPart::RootDir, PathPart::ParentDir]);
    assert(root + Seq::<PathPart>::empty() =~= root);
}

proof fn lemma_only_piece(piece: Seq<char>)
    requires
        !piece.contains('/'),
        piece.len() > 0,
    ensures
        path::spec_components(piece) == path::piece_parts(piece, true),
        path::spec_components(seq!['/'] + piece) == seq![PathPart::RootDir] + path::piece_parts(
            piece,
            false,
        ),
{
    reveal_with_fuel(path::pieces_parts, 3);
    let nothing = Seq::<char>::empty();
    assert(piece[0] != '/') by {
        assert(piece.contains(piece[0]));
    }
    path::lemma_split_unfold(piece, '/');
    assert(seq![piece].drop_last() =~= Seq::<Seq<char>>::empty());
    assert(path::spec_components(piece) =~= path::piece_parts(piece, true));
    let below = seq!['/'] + piece;
    assert(nothing + seq!['/'] + piece =~= below);
    path::lemma_split_joined(nothing, piece, '/');
    path::lemma_split_unfold(nothing, '/');
    let pieces = text::spec_split(below, '/');
    assert(pieces =~= seq![nothing, piece]);
    assert(pieces.drop_last() =~= seq![nothing]);
    assert(seq![nothing].drop_last() =~= Seq::<Seq<char>>::empty());
    assert(path::spec_components(below) =~= seq![PathPart::RootDir] + path::piece_parts(
        piece,
        false,
    ));
}

/// The extension of a file is what stands behind the last dot of its name, where something stands
/// before that dot.
pub proof fn law_extension_follows_the_last_dot(
    base: Seq<char>,
    stem: Seq<char>,
    extension: Seq<char>,
)
    requires
        base.len() > 0,
        stem.len() > 0,
        !stem.contains('/'),
        !extension.contains('/'),
        !extension.contains('.'),
        extension.len() > 0 || stem != seq!['.'],
    ensures
        path::spec_extension(base + seq!['/'] + (stem + seq!['.'] + extension)) == Some(extension),
        !stem.contains('.') ==> path::spec_extension(base + seq!['/'] + stem) is None,
        !stem.contains('.') ==> path::spec_extension(base + seq!['/'] + (seq!['.'] + stem)) is None,
        path::spec_extension(base + seq!['/', '.', '.']) is None,
{
    let name = stem + seq!['.'] + extension;
    assert(name[stem.len() as int] == '.');
    assert forall|j: int| 0 <= j < name.len() implies name[j] != '/' by {
        if j < stem.len() {
            assert(stem.contains(name[j]));
        } else if j > stem.len() {
            assert(extension[j - stem.len() - 1] == name[j]);
            assert(extension.contains(name[j]));
        }
    }
    assert(path::plain_name(name)) by {
        if name == seq!['.', '.'] {
            assert(name[1] == '.');
            assert(name.len() == 2);
            if extension.len() == 0 {
                assert(stem =~= seq!['.']);
            } else {
                assert(extension[0] == '.');
                assert(extension.contains('.'));
            }
        }
    }
    law_components_behind_a_slash(base, name);
    lemma_last_dot(stem, extension);
    assert(name.skip(stem.len() as int + 1) =~= extension);
    if !stem.contains('.') {
        assert(path::plain_name(stem)) by {
            if stem == seq!['.'] || stem == seq!['.', '.'] {
                assert(stem[0] == '.');
                assert(stem.contains('.'));
            }
        }
        law_components_behind_a_slash(base, stem);
        lemma_no_dot(stem);
        let nothing = Seq::<char>::empty();
        let leaf = seq!['.'] + stem;
        assert(leaf =~= nothing + seq!['.'] + stem);
        assert(leaf[1] == stem[0]);
        assert(stem.contains(stem[0]));
        assert forall|j: int| 0 <= j < leaf.len() implies leaf[j] != '/' by {
            if j > 0 {
                assert(stem[j - 1] == leaf[j]);
                assert(stem.contains(leaf[j]));
            }
        }
        assert(path::plain_name(leaf)) by {
            assert(leaf[1] != '.');
        }
        law_components_behind_a_slash(base, leaf);
        lemma_last_dot(nothing, stem);
    }
}

proof fn lemma_last_dot(stem: Seq<char>, extension: Seq<char>)
    requires
        !extension.contains('.'),
    ensures
        path::last_dot(stem + seq!['.'] + extension) == stem.len(),
    decreases extension.len(),
{
    let name = stem + seq!['.'] + extension;
    if extension.len() > 0 {
        let less = extension.drop_last();
        assert(extension.contains(extension.last()));
        assert(!less.contains('.')) by {
            if less.contains('.') {
                let i = choose|i: int| 0 <= i < less.len() && less[i] == '.';
                assert(extension[i] == '.');
            }
        }
        lemma_last_dot(stem, less);
        assert(name.drop_last() =~= stem + seq!['.'] + less);
        assert(name.last() == extension.last());
    }
}

proof fn lemma_no_dot(name: Seq<char>)
    requires
        !name.contains('.'),
    ensures
        path::last_dot(name) == -1,
    decreases name.len(),
{
    if name.len() > 0 {
        assert(name.contains(name.last()));
        let less = name.drop_last();
        assert(!less.contains('.')) by {
            if less.contains('.') {
                let i = choose|i: int| 0 <= i < less.len() && less[i] == '.';
                assert(name[i] == '.');
            }
        }
        lemma_no_dot(less);
    }
}

/// Joining a name to a directory puts one slash between them; an absolute name stands alone.
pub proof fn law_joined_path(base: Seq<char>, name: Seq<char>)
    ensures
        name.len() > 0 && name[0] == '/' ==> path::spec_join_path(base, name) == name,
        !(name.len() > 0 && name[0] == '/') && base.len() > 0 && base.last() != '/'
            ==> path::spec_join_path(base, name) == base + seq!['/'] + name,
        !(name.len() > 0 && name[0] == '/') && base.len() > 0 && base.last() == '/'
            ==> path::spec_join_path(base, name) == base + name,
        base.len() == 0 ==> path::spec_join_path(base, name) == name,
{
}

} // verus!
