//! The names that a fixture is written under: the Lean namespace and the circuit slug.

use vstd::prelude::*;
use vstd::string::*;

verus! {

/// An ASCII letter.
pub open spec fn is_letter(c: char) -> bool {
    ('a' <= c && c <= 'z') || ('A' <= c && c <= 'Z')
}

/// An ASCII decimal digit.
pub open spec fn is_digit(c: char) -> bool {
    '0' <= c && c <= '9'
}

/// A conservative ASCII subset of the Lean identifiers.
pub open spec fn lean_ident(s: Seq<char>) -> bool {
    &&& s.len() > 0
    &&& is_letter(s[0]) || s[0] == '_'
    &&& forall|i: int|
        1 <= i < s.len() ==> is_letter(#[trigger] s[i]) || is_digit(s[i]) || s[i] == '_'
}

/// The segments between the dots of a string; one more than there are dots.
pub open spec fn segments(s: Seq<char>) -> Seq<Seq<char>>
    decreases s.len(),
{
    if s.len() == 0 {
        seq![Seq::empty()]
    } else {
        let before = segments(s.drop_last());
        if s.last() == '.' {
            before.push(Seq::empty())
        } else {
            before.drop_last().push(before.last().push(s.last()))
        }
    }
}

/// A dot-separated path of Lean identifiers.
pub open spec fn lean_path(s: Seq<char>) -> bool {
    forall|i: int| 0 <= i < segments(s).len() ==> lean_ident(#[trigger] segments(s)[i])
}

/// A non-empty string of ASCII letters, digits, underscores and hyphens.
pub open spec fn slug(s: Seq<char>) -> bool {
    &&& s.len() > 0
    &&& forall|i: int|
        0 <= i < s.len() ==> is_letter(#[trigger] s[i]) || is_digit(s[i]) || s[i] == '_' || s[i]
            == '-'
}

/// Segments with a dot between each two.
pub open spec fn dotted(parts: Seq<Seq<char>>) -> Seq<char>
    decreases parts.len(),
{
    if parts.len() == 0 {
        Seq::empty()
    } else if parts.len() == 1 {
        parts[0]
    } else {
        dotted(parts.drop_last()).push('.') + parts.last()
    }
}

/// The segments of a string hold no dots, and with dots between them they are the string again.
pub proof fn segments_join_back(s: Seq<char>)
    ensures
        segments(s).len() > 0,
        forall|i: int|
            0 <= i < segments(s).len() ==> !(#[trigger] segments(s)[i]).contains('.'),
        dotted(segments(s)) == s,
    decreases s.len(),
{
    let parts = segments(s);
    if s.len() > 0 {
        let before = segments(s.drop_last());
        segments_join_back(s.drop_last());
        assert(s =~= s.drop_last().push(s.last()));
        if s.last() == '.' {
            assert(parts.drop_last() =~= before);
            assert(dotted(parts) =~= s);
        } else {
            let last = before.last().push(s.last());
            assert(parts.drop_last() =~= before.drop_last());
            assert(dotted(parts) =~= dotted(before).push(s.last()));
            assert(!last.contains('.')) by {
                assert forall|i: int| 0 <= i < last.len() implies last[i] != '.' by {
                    if i < last.len() - 1 {
                        assert(before[before.len() - 1].contains(last[i]));
                    }
                }
            }
            assert forall|i: int| 0 <= i < parts.len() implies !(#[trigger] parts[i]).contains(
                '.',
            ) by {
                if i < parts.len() - 1 {
                    assert(parts[i] == before[i]);
                }
            }
        }
    } else {
        assert(parts[0] =~= s);
    }
}

/// A path of Lean identifiers is not empty and consists of ASCII letters, digits, underscores and
/// dots, so it can be written into a Lean file as it is.
pub proof fn path_is_plain(s: Seq<char>)
    requires
        lean_path(s),
    ensures
        s.len() > 0,
        forall|i: int|
            0 <= i < s.len() ==> is_letter(#[trigger] s[i]) || is_digit(s[i]) || s[i] == '_'
                || s[i] == '.',
{
    segments_join_back(s);
    lemma_dotted_is_plain(segments(s));
}

spec fn plain(s: Seq<char>) -> bool {
    forall|i: int|
        0 <= i < s.len() ==> is_letter(#[trigger] s[i]) || is_digit(s[i]) || s[i] == '_' || s[i]
            == '.'
}

proof fn lemma_dotted_is_plain(parts: Seq<Seq<char>>)
    requires
        parts.len() > 0,
        forall|i: int| 0 <= i < parts.len() ==> lean_ident(#[trigger] parts[i]),
    ensures
        plain(dotted(parts)),
        dotted(parts).len() > 0,
    decreases parts.len(),
{
    assert(lean_ident(parts[parts.len() - 1]));
    assert(plain(parts.last()));
    if parts.len() > 1 {
        let rest = parts.drop_last();
        assert forall|i: int| 0 <= i < rest.len() implies lean_ident(#[trigger] rest[i]) by {
            assert(rest[i] == parts[i]);
        }
        lemma_dotted_is_plain(rest);
    }
}

/// A Lean identifier starts with an ASCII letter or an underscore and goes on with ASCII letters,
/// digits and underscores; every such text is one, and there are no others.
pub proof fn identifiers_are_spelled_out(s: Seq<char>)
    ensures
        lean_ident(s) <==> {
            &&& s.len() > 0
            &&& !('0' <= s[0] <= '9')
            &&& forall|i: int|
                0 <= i < s.len() ==> 'a' <= #[trigger] s[i] <= 'z' || 'A' <= s[i] <= 'Z' || '0'
                    <= s[i] <= '9' || s[i] == '_'
        },
{
    if lean_ident(s) {
        assert(is_letter(s[0]) || s[0] == '_');
    }
}

/// A slug consists of ASCII letters, digits, underscores and hyphens and is not empty; every such
/// text is one, and there are no others.
pub proof fn slugs_are_spelled_out(s: Seq<char>)
    ensures
        slug(s) <==> {
            &&& s.len() > 0
            &&& forall|i: int|
                0 <= i < s.len() ==> 'a' <= #[trigger] s[i] <= 'z' || 'A' <= s[i] <= 'Z' || '0'
                    <= s[i] <= '9' || s[i] == '_' || s[i] == '-'
        },
{
}

/// Whether a place in a text is where a segment starts.
pub open spec fn starts_segment(s: Seq<char>, i: int) -> bool {
    i == 0 || s[i - 1] == '.'
}

/// A path of Lean identifiers consists of ASCII letters, digits, underscores and dots, and at its
/// start and after every dot stands a letter or an underscore; every such text is one, and there
/// are no others.
pub proof fn paths_are_spelled_out(s: Seq<char>)
    ensures
        lean_path(s) <==> {
            &&& forall|i: int|
                0 <= i < s.len() ==> 'a' <= #[trigger] s[i] <= 'z' || 'A' <= s[i] <= 'Z' || '0'
                    <= s[i] <= '9' || s[i] == '_' || s[i] == '.'
            &&& forall|i: int|
                0 <= i <= s.len() && #[trigger] starts_segment(s, i) ==> i < s.len() && (('a'
                    <= s[i] <= 'z') || ('A' <= s[i] <= 'Z') || s[i] == '_')
        },
{
    lemma_places(s);
    assert(starts_segment(s, s.len() as int) <==> segments(s).last().len() == 0);
    if lean_path(s) {
        assert(lean_ident(segments(s)[segments(s).len() - 1]));
        assert(good_so_far(s));
        assert(place_by_place(s));
    } else if place_by_place(s) {
        let i = choose|i: int|
            0 <= i < segments(s).len() && !lean_ident(#[trigger] segments(s)[i]);
        assert(i == segments(s).len() - 1);
        assert(starts_segment(s, s.len() as int));
    } else {
        if exists|i: int| 0 <= i < s.len() && !(segment_char(#[trigger] s[i]) || s[i] == '.') {
        } else {
            let i = choose|i: int|
                0 <= i < s.len() && #[trigger] starts_segment(s, i) && !start_char(s[i]);
            assert(starts_segment(s, i));
        }
    }
}

spec fn segment_char(c: char) -> bool {
    is_letter(c) || is_digit(c) || c == '_'
}

spec fn start_char(c: char) -> bool {
    is_letter(c) || c == '_'
}

/// Whether every segment is an identifier, the last one perhaps not begun.
spec fn good_so_far(s: Seq<char>) -> bool {
    &&& forall|i: int| 0 <= i < segments(s).len() - 1 ==> lean_ident(#[trigger] segments(s)[i])
    &&& segments(s).last().len() == 0 || lean_ident(segments(s).last())
}

/// Whether every place holds a character that may stand there.
spec fn place_by_place(s: Seq<char>) -> bool {
    &&& forall|i: int| 0 <= i < s.len() ==> segment_char(#[trigger] s[i]) || s[i] == '.'
    &&& forall|i: int|
        0 <= i < s.len() && #[trigger] starts_segment(s, i) ==> start_char(s[i])
}

proof fn lemma_ident_grows(s: Seq<char>, c: char)
    ensures
        lean_ident(s.push(c)) <==> (if s.len() == 0 {
            start_char(c)
        } else {
            lean_ident(s) && segment_char(c)
        }),
{
    let t = s.push(c);
    if s.len() > 0 {
        if lean_ident(t) {
            assert forall|i: int| 1 <= i < s.len() implies is_letter(#[trigger] s[i]) || is_digit(
                s[i],
            ) || s[i] == '_' by {
                assert(t[i] == s[i]);
            }
            assert(segment_char(t[s.len() as int]));
        }
    }
}

proof fn lemma_place_grows(s: Seq<char>)
    requires
        s.len() > 0,
    ensures
        place_by_place(s) <==> {
            &&& place_by_place(s.drop_last())
            &&& segment_char(s.last()) || s.last() == '.'
            &&& starts_segment(s, s.len() - 1) ==> start_char(s.last())
        },
        forall|i: int|
            0 <= i < s.len() ==> #[trigger] starts_segment(s, i) == starts_segment(
                s.drop_last(),
                i,
            ),
{
    let t = s.drop_last();
    if place_by_place(s) {
        assert forall|i: int| 0 <= i < t.len() implies segment_char(#[trigger] t[i]) || t[i]
            == '.' by {
            assert(s[i] == t[i]);
        }
        assert forall|i: int| 0 <= i < t.len() && #[trigger] starts_segment(
            t,
            i,
        ) implies start_char(t[i]) by {
            assert(starts_segment(s, i));
        }
        assert(segment_char(s[s.len() - 1]) || s[s.len() - 1] == '.');
    }
    if place_by_place(t) && (segment_char(s.last()) || s.last() == '.') && (starts_segment(
        s,
        s.len() - 1,
    ) ==> start_char(s.last())) {
        assert forall|i: int| 0 <= i < s.len() implies segment_char(#[trigger] s[i]) || s[i]
            == '.' by {
            if i < t.len() {
                assert(t[i] == s[i]);
            }
        }
        assert forall|i: int| 0 <= i < s.len() && #[trigger] starts_segment(
            s,
            i,
        ) implies start_char(s[i]) by {
            if i < t.len() {
                assert(starts_segment(t, i));
            }
        }
    }
}

/// What the segments say of the characters, place by place.
proof fn lemma_places(s: Seq<char>)
    ensures
        segments(s).len() > 0,
        starts_segment(s, s.len() as int) <==> segments(s).last().len() == 0,
        good_so_far(s) <==> place_by_place(s),
    decreases s.len(),
{
    let parts = segments(s);
    if s.len() > 0 {
        let shorter = s.drop_last();
        let before = segments(shorter);
        lemma_places(shorter);
        lemma_place_grows(s);
        assert(starts_segment(s, s.len() - 1) == starts_segment(shorter, shorter.len() as int));
        if s.last() == '.' {
            assert(good_so_far(s) <==> good_so_far(shorter) && before.last().len() > 0) by {
                if good_so_far(s) {
                    assert forall|i: int| 0 <= i < before.len() - 1 implies lean_ident(
                        #[trigger] before[i],
                    ) by {
                        assert(parts[i] == before[i]);
                    }
                    assert(lean_ident(parts[before.len() - 1]));
                }
                if good_so_far(shorter) && before.last().len() > 0 {
                    assert forall|i: int| 0 <= i < parts.len() - 1 implies lean_ident(
                        #[trigger] parts[i],
                    ) by {
                        assert(parts[i] == before[i]);
                    }
                }
            }
        } else {
            lemma_ident_grows(before.last(), s.last());
            assert(good_so_far(s) <==> good_so_far(shorter) && lean_ident(parts.last())) by {
                if good_so_far(s) {
                    assert forall|i: int| 0 <= i < before.len() - 1 implies lean_ident(
                        #[trigger] before[i],
                    ) by {
                        assert(parts[i] == before[i]);
                    }
                }
                if good_so_far(shorter) && lean_ident(parts.last()) {
                    assert forall|i: int| 0 <= i < parts.len() - 1 implies lean_ident(
                        #[trigger] parts[i],
                    ) by {
                        assert(parts[i] == before[i]);
                    }
                }
            }
        }
    }
}

/// A slug needs no escape in a Lean string literal: all its characters are printable ASCII, and
/// none is a quotation mark or a backslash.
pub proof fn slug_needs_no_escape(s: Seq<char>)
    requires
        slug(s),
    ensures
        forall|i: int|
            0 <= i < s.len() ==> ' ' < #[trigger] s[i] && s[i] <= '~' && s[i] != '"' && s[i]
                != '\\',
{
}

fn letter(c: char) -> (r: bool)
    ensures
        r == is_letter(c),
{
    ('a' <= c && c <= 'z') || ('A' <= c && c <= 'Z')
}

fn letter_or_digit(c: char) -> (r: bool)
    ensures
        r == (is_letter(c) || is_digit(c)),
{
    letter(c) || ('0' <= c && c <= '9')
}

/// Whether `segment` is a conservative ASCII subset of a Lean identifier: non-empty, starting with
/// a letter or `_`, and otherwise containing only ASCII alphanumerics and `_`. A digit-leading
/// segment (e.g. `123`) is rejected, so a dotted path of accepted segments cannot hold a token that
/// Lean would reject.
pub fn is_lean_ident(segment: &str) -> (r: bool)
    ensures
        r == lean_ident(segment@),
{
    let n: usize = segment.unicode_len();
    if n == 0 {
        return false;
    }
    let first: char = segment.get_char(0);
    if !letter(first) && first != '_' {
        return false;
    }
    let mut i: usize = 1;
    while i < n
        invariant
            n == segment@.len(),
            1 <= i <= n,
            forall|j: int|
                1 <= j < i ==> is_letter(#[trigger] segment@[j]) || is_digit(segment@[j])
                    || segment@[j] == '_',
        decreases n - i,
    {
        let c: char = segment.get_char(i);
        if !letter_or_digit(c) && c != '_' {
            return false;
        }
        i = i + 1;
    }
    true
}

/// Whether `namespace` is a dot-separated path of ASCII Lean identifiers.
pub fn is_lean_path(namespace: &str) -> (r: bool)
    ensures
        r == lean_path(namespace@),
{
    let n: usize = namespace.unicode_len();
    let mut start: usize = 0;
    let mut i: usize = 0;
    proof {
        assert(namespace@.take(0) =~= Seq::empty());
        assert(namespace@.subrange(0, 0) =~= Seq::empty());
    }
    while i < n
        invariant
            n == namespace@.len(),
            start <= i <= n,
            segments(namespace@.take(i as int)).len() > 0,
            segments(namespace@.take(i as int)).last() == namespace@.subrange(
                start as int,
                i as int,
            ),
            forall|j: int|
                0 <= j < segments(namespace@.take(i as int)).len() - 1 ==> lean_ident(
                    #[trigger] segments(namespace@.take(i as int))[j],
                ),
        decreases n - i,
    {
        let ghost before = segments(namespace@.take(i as int));
        let ghost after = segments(namespace@.take(i + 1));
        proof {
            assert(namespace@.take(i + 1).drop_last() =~= namespace@.take(i as int));
        }
        if namespace.get_char(i) == '.' {
            if !is_lean_ident(namespace.substring_char(start, i)) {
                proof {
                    lemma_segments_only_grow(namespace@, i as int, before.len() - 1);
                }
                return false;
            }
            start = i + 1;
            assert(namespace@.subrange(i + 1, i + 1) =~= Seq::empty());
        } else {
            assert(namespace@.subrange(start as int, i + 1) =~= namespace@.subrange(
                start as int,
                i as int,
            ).push(namespace@[i as int]));
        }
        i = i + 1;
    }
    assert(namespace@.take(n as int) =~= namespace@);
    is_lean_ident(namespace.substring_char(start, n))
}

/// A segment that a dot has closed stays as it is.
proof fn lemma_segments_only_grow(s: Seq<char>, i: int, j: int)
    requires
        0 <= i < s.len(),
        s[i] == '.',
        0 <= j < segments(s.take(i)).len(),
    ensures
        j < segments(s).len() - 1,
        segments(s)[j] == segments(s.take(i))[j],
    decreases s.len(),
{
    let shorter = s.drop_last();
    if i < s.len() - 1 {
        assert(shorter.take(i) =~= s.take(i));
        lemma_segments_only_grow(shorter, i, j);
    } else {
        assert(s.take(i) =~= shorter);
    }
}

/// Whether `circuit_id` is a non-empty ASCII slug.
pub fn is_slug(circuit_id: &str) -> (r: bool)
    ensures
        r == slug(circuit_id@),
{
    let n: usize = circuit_id.unicode_len();
    let mut i: usize = 0;
    while i < n
        invariant
            n == circuit_id@.len(),
            i <= n,
            forall|j: int|
                0 <= j < i ==> is_letter(#[trigger] circuit_id@[j]) || is_digit(circuit_id@[j])
                    || circuit_id@[j] == '_' || circuit_id@[j] == '-',
        decreases n - i,
    {
        let c: char = circuit_id.get_char(i);
        if !letter_or_digit(c) && c != '_' && c != '-' {
            return false;
        }
        i = i + 1;
    }
    n > 0
}

} // verus!
