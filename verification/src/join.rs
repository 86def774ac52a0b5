use vstd::prelude::*;
use vstd::string::StringExecFns;

verus! {

broadcast use vstd::string::group_string_axioms, vstd::array::group_array_axioms;

/// `parts` separated by `", "`.
pub open spec fn comma_list(parts: Seq<Seq<char>>) -> Seq<char>
    decreases parts.len(),
{
    if parts.len() == 0 {
        seq![]
    } else if parts.len() == 1 {
        parts[0]
    } else {
        comma_list(parts.drop_last()) + seq![',', ' '] + parts.last()
    }
}

/// The human-readable enumeration of `parts` whose last two items are linked by `tail`:
/// `a`, `a tail b`, `a, b, tail c`, `a, b, c, tail d`, and so on.
pub open spec fn spec_join(parts: Seq<Seq<char>>, tail: Seq<char>) -> Seq<char> {
    if parts.len() == 0 {
        seq![]
    } else if parts.len() == 1 {
        parts[0]
    } else if parts.len() == 2 {
        parts[0] + seq![' '] + tail + seq![' '] + parts[1]
    } else {
        comma_list(parts.drop_last()) + seq![',', ' '] + tail + seq![' '] + parts.last()
    }
}

/// The texts of a list of strings.
pub open spec fn texts(strings: Seq<String>) -> Seq<Seq<char>> {
    strings.map_values(|s: String| s@)
}

/// Joins already formatted items into a human-readable enumeration.
fn join_parts(parts: &Vec<String>, tail: &str) -> (joined: String)
    ensures
        joined@ == spec_join(texts(parts@), tail@),
{
    let n = parts.len();
    let ghost ps = texts(parts@);
    proof {
        reveal_strlit(", ");
        reveal_strlit(" ");
    }
    if n == 0 {
        return String::new();
    }
    if n == 1 {
        return parts[0].clone();
    }
    if n == 2 {
        let mut joined = parts[0].clone();
        joined.append(" ");
        joined.append(tail);
        joined.append(" ");
        joined.append(parts[1].as_str());
        return joined;
    }
    let mut joined = String::new();
    let mut idx: usize = 0;
    while idx < n - 1
        invariant
            n == parts@.len(),
            n >= 3,
            ps == texts(parts@),
            idx <= n - 1,
            joined@ == comma_list(ps.take(idx as int)),
        decreases n - 1 - idx,
    {
        proof {
            reveal_strlit(", ");
        }
        if idx > 0 {
            joined.append(", ");
        }
        joined.append(parts[idx].as_str());
        assert(ps.take(idx + 1).drop_last() == ps.take(idx as int));
        assert(ps.take(idx + 1).last() == parts@[idx as int]@);
        assert(idx == 0 ==> ps.take(idx + 1)[0] == parts@[idx as int]@);
        idx = idx + 1;
    }
    assert(ps.take((n - 1) as int) == ps.drop_last());
    joined.append(", ");
    joined.append(tail);
    joined.append(" ");
    joined.append(parts[n - 1].as_str());
    joined
}

/// Formats a list of items into a human-readable enumeration whose last two items are
/// linked by a given word (`1, 2, or 3`).
pub trait JoinWith {
    type Item;

    /// The items of the list, in order.
    spec fn join_items(&self) -> Seq<Self::Item>;

    /// The texts that `fmt_join` writes for the items, in order.
    spec fn item_texts(&self) -> Seq<Seq<char>>;

    /// Joins the items as they print by default.
    fn fmt_join(&self, tail: &str) -> (joined: String)
        ensures
            joined@ == spec_join(self.item_texts(), tail@),
    ;

    /// Joins the items as `format_item` prints them.
    fn fmt_join_with<F: Fn(&Self::Item) -> String>(&self, format_item: F, tail: &str) -> (joined: String)
        requires
            forall|i: int|
                0 <= i < self.join_items().len() ==> call_requires(
                    format_item,
                    (&self.join_items()[i],),
                ),
        ensures
            exists|parts: Seq<String>|
                {
                    &&& parts.len() == self.join_items().len()
                    &&& forall|i: int|
                        0 <= i < parts.len() ==> call_ensures(
                            format_item,
                            (&self.join_items()[i],),
                            #[trigger] parts[i],
                        )
                    &&& joined@ == spec_join(texts(parts), tail@)
                },
    ;
}

/// Formats every item of a list with `format_item`.
fn format_all<I, F: Fn(&I) -> String>(items: &[I], format_item: F) -> (parts: Vec<String>)
    requires
        forall|i: int| 0 <= i < items@.len() ==> call_requires(format_item, (&items@[i],)),
    ensures
        parts@.len() == items@.len(),
        forall|i: int|
            0 <= i < parts@.len() ==> call_ensures(format_item, (&items@[i],), #[trigger] parts@[i]),
{
    let mut parts: Vec<String> = Vec::new();
    let n = items.len();
    for k in 0..n
        invariant
            n == items@.len(),
            parts@.len() == k,
            forall|i: int| 0 <= i < items@.len() ==> call_requires(format_item, (&items@[i],)),
            forall|i: int|
                0 <= i < k ==> call_ensures(format_item, (&items@[i],), #[trigger] parts@[i]),
    {
        let part = format_item(&items[k]);
        parts.push(part);
    }
    parts
}

/// Copies a list of strings.
fn clone_all(items: &[String]) -> (copies: Vec<String>)
    ensures
        texts(copies@) == texts(items@),
{
    let mut copies: Vec<String> = Vec::new();
    let n = items.len();
    for k in 0..n
        invariant
            n == items@.len(),
            copies@.len() == k,
            forall|i: int| 0 <= i < k ==> #[trigger] copies@[i]@ == items@[i]@,
    {
        copies.push(items[k].clone());
    }
    assert(texts(copies@) =~= texts(items@));
    copies
}

impl JoinWith for [String] {
    type Item = String;

    open spec fn join_items(&self) -> Seq<String> {
        self@
    }

    open spec fn item_texts(&self) -> Seq<Seq<char>> {
        texts(self@)
    }

    fn fmt_join(&self, tail: &str) -> (joined: String) {
        join_parts(&clone_all(self), tail)
    }

    fn fmt_join_with<F: Fn(&String) -> String>(&self, format_item: F, tail: &str) -> (joined: String) {
        assert forall|i: int| 0 <= i < self@.len() implies call_requires(format_item, (&self@[i],)) by {
            assert(JoinWith::join_items(self)[i] == self@[i]);
        }
        let parts = format_all(self, format_item);
        join_parts(&parts, tail)
    }
}

/// Like [`JoinWith`], with the last two items linked by `or`.
pub trait JoinWithOr {
    type Item;

    /// The items of the list, in order.
    spec fn or_items(&self) -> Seq<Self::Item>;

    /// The texts that `fmt_join` writes for the items, in order.
    spec fn or_item_texts(&self) -> Seq<Seq<char>>;

    /// Joins the items as they print by default.
    fn fmt_join(&self) -> (joined: String)
        ensures
            joined@ == spec_join(self.or_item_texts(), seq!['o', 'r']),
    ;

    /// Joins the items as `format_item` prints them.
    fn fmt_join_with<F: Fn(&Self::Item) -> String>(&self, format_item: F) -> (joined: String)
        requires
            forall|i: int|
                0 <= i < self.or_items().len() ==> call_requires(
                    format_item,
                    (&self.or_items()[i],),
                ),
        ensures
            exists|parts: Seq<String>|
                {
                    &&& parts.len() == self.or_items().len()
                    &&& forall|i: int|
                        0 <= i < parts.len() ==> call_ensures(
                            format_item,
                            (&self.or_items()[i],),
                            #[trigger] parts[i],
                        )
                    &&& joined@ == spec_join(texts(parts), seq!['o', 'r'])
                },
    ;
}

impl JoinWithOr for [String] {
    type Item = String;

    open spec fn or_items(&self) -> Seq<String> {
        self@
    }

    open spec fn or_item_texts(&self) -> Seq<Seq<char>> {
        texts(self@)
    }

    fn fmt_join(&self) -> (joined: String) {
        proof {
            reveal_strlit("or");
        }
        join_parts(&clone_all(self), "or")
    }

    fn fmt_join_with<F: Fn(&String) -> String>(&self, format_item: F) -> (joined: String) {
        proof {
            reveal_strlit("or");
        }
        assert forall|i: int| 0 <= i < self@.len() implies call_requires(format_item, (&self@[i],)) by {
            assert(JoinWithOr::or_items(self)[i] == self@[i]);
        }
        let parts = format_all(self, format_item);
        join_parts(&parts, "or")
    }
}

impl<const N: usize> JoinWith for [String; N] {
    type Item = String;

    open spec fn join_items(&self) -> Seq<String> {
        self@
    }

    open spec fn item_texts(&self) -> Seq<Seq<char>> {
        texts(self@)
    }

    fn fmt_join(&self, tail: &str) -> (joined: String) {
        JoinWith::fmt_join(self.as_slice(), tail)
    }

    fn fmt_join_with<F: Fn(&String) -> String>(&self, format_item: F, tail: &str) -> (joined: String) {
        let items = self.as_slice();
        assert(items@ == self@);
        assert forall|i: int| 0 <= i < items@.len() implies call_requires(
            format_item,
            (&JoinWith::join_items(items)[i],),
        ) by {
            assert(JoinWith::join_items(self)[i] == self@[i]);
        }
        JoinWith::fmt_join_with(items, format_item, tail)
    }
}

impl<const N: usize> JoinWithOr for [String; N] {
    type Item = String;

    open spec fn or_items(&self) -> Seq<String> {
        self@
    }

    open spec fn or_item_texts(&self) -> Seq<Seq<char>> {
        texts(self@)
    }

    fn fmt_join(&self) -> (joined: String) {
        JoinWithOr::fmt_join(self.as_slice())
    }

    fn fmt_join_with<F: Fn(&String) -> String>(&self, format_item: F) -> (joined: String) {
        let items = self.as_slice();
        assert(items@ == self@);
        assert forall|i: int| 0 <= i < items@.len() implies call_requires(
            format_item,
            (&JoinWithOr::or_items(items)[i],),
        ) by {
            assert(JoinWithOr::or_items(self)[i] == self@[i]);
        }
        JoinWithOr::fmt_join_with(items, format_item)
    }
}

} // verus!
