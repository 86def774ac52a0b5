use vstd::prelude::*;
use crate::ast::spans::ASTNode;
use crate::lexer::Token;
use crate::span::{Position, Span, join, join_spans};
use vstd::string::StringSliceAdditionalSpecFns;

verus! {

broadcast use crate::span::lemma_span_spec_new, crate::span::lemma_position_spec_new;

/// The number of items an optional trailing item adds to a list.
pub open spec fn tail_count<T>(tail: Option<T>) -> nat {
    if tail is Some {
        1
    } else {
        0
    }
}

/// A list of items separated by punctuation, such as `a, b, c` or `a, b,`: a sequence of
/// (item, punctuation) pairs followed by an optional last item without punctuation.
#[derive(Debug, PartialEq)]
pub struct Punctuated<Item, Punct> {
    pairs: Vec<(Item, Punct)>,
    tail: Option<Item>,
}

impl<Item, Punct> Punctuated<Item, Punct> {
    /// The list's size always fits in a machine word.
    #[verifier::type_invariant]
    closed spec fn fits(self) -> bool {
        self.pairs@.len() + tail_count(self.tail) <= usize::MAX
    }

    /// The (item, punctuation) pairs, in order.
    pub closed spec fn spec_pairs(self) -> Seq<(Item, Punct)> {
        self.pairs@
    }

    /// The last item, when it is not followed by punctuation.
    pub closed spec fn spec_tail(self) -> Option<Item> {
        self.tail
    }

    /// The number of items.
    pub open spec fn spec_len(self) -> nat {
        self.spec_pairs().len() + tail_count(self.spec_tail())
    }

    /// All items in order: those of the pairs, then the trailing one.
    pub open spec fn spec_items(self) -> Seq<Item> {
        let firsts = self.spec_pairs().map_values(|p: (Item, Punct)| p.0);
        match self.spec_tail() {
            Some(t) => firsts.push(t),
            None => firsts,
        }
    }

    /// All punctuation in order.
    pub open spec fn spec_puncts(self) -> Seq<Punct> {
        self.spec_pairs().map_values(|p: (Item, Punct)| p.1)
    }

    /// A list made of the given pairs and trailing item.
    pub open spec fn from_parts(self, pairs: Seq<(Item, Punct)>, tail: Option<Item>) -> bool {
        self.spec_pairs() == pairs && self.spec_tail() == tail
    }

    /// Creates an empty list.
    pub fn new() -> (list: Self)
        ensures
            list.spec_pairs() == Seq::<(Item, Punct)>::empty(),
            list.spec_tail() is None,
    {
        Punctuated { pairs: Vec::new(), tail: None }
    }

    pub fn is_empty(&self) -> (empty: bool)
        ensures
            empty == (self.spec_pairs().len() == 0 && self.spec_tail() is None),
    {
        self.pairs.len() == 0 && self.tail.is_none()
    }

    pub fn len(&self) -> (n: usize)
        ensures
            n == self.spec_len(),
    {
        proof {
            use_type_invariant(self);
        }
        self.pairs.len() + if self.tail.is_some() {
            1
        } else {
            0
        }
    }

    /// Appends a pair; the trailing item, if any, stays last.
    pub fn push_pair(&mut self, pair: (Item, Punct))
        requires
            old(self).spec_len() < usize::MAX,
        ensures
            final(self).spec_pairs() == old(self).spec_pairs().push(pair),
            final(self).spec_tail() == old(self).spec_tail(),
    {
        proof {
            use_type_invariant(&*self);
        }
        let mut pairs = Vec::new();
        std::mem::swap(&mut pairs, &mut self.pairs);
        pairs.push(pair);
        self.pairs = pairs;
    }

    /// Appends an item without punctuation; there must not already be one.
    pub fn push_item(&mut self, item: Item)
        requires
            old(self).spec_tail() is None,
            old(self).spec_len() < usize::MAX,
        ensures
            final(self).spec_pairs() == old(self).spec_pairs(),
            final(self).spec_tail() == Some(item),
    {
        self.tail = Some(item);
    }

    /// Appends punctuation behind the trailing item, which must be there.
    pub fn push_punct(&mut self, punct: Punct)
        requires
            old(self).spec_tail() is Some,
        ensures
            final(self).spec_pairs() == old(self).spec_pairs().push(
                (old(self).spec_tail()->0, punct),
            ),
            final(self).spec_tail() is None,
    {
        proof {
            use_type_invariant(&*self);
        }
        let mut tail = None;
        std::mem::swap(&mut tail, &mut self.tail);
        let item = tail.unwrap();
        let mut pairs = Vec::new();
        std::mem::swap(&mut pairs, &mut self.pairs);
        pairs.push((item, punct));
        self.pairs = pairs;
    }

    pub fn get_pair(&self, index: usize) -> (pair: Option<&(Item, Punct)>)
        ensures
            index < self.spec_pairs().len() ==> pair == Some(&self.spec_pairs()[index as int]),
            index >= self.spec_pairs().len() ==> pair is None,
    {
        if index < self.pairs.len() {
            Some(&self.pairs[index])
        } else {
            None
        }
    }

    /// Removes and returns the pair at `index`, if there is one.
    pub fn remove_pair(&mut self, index: usize) -> (pair: Option<(Item, Punct)>)
        ensures
            index < old(self).spec_pairs().len() ==> {
                &&& pair == Some(old(self).spec_pairs()[index as int])
                &&& final(self).spec_pairs() == old(self).spec_pairs().remove(index as int)
            },
            index >= old(self).spec_pairs().len() ==> pair is None && final(self).spec_pairs()
                == old(self).spec_pairs(),
            final(self).spec_tail() == old(self).spec_tail(),
    {
        if index >= self.pairs.len() {
            return None;
        }
        proof {
            use_type_invariant(&*self);
        }
        let mut pairs = Vec::new();
        std::mem::swap(&mut pairs, &mut self.pairs);
        let pair = pairs.remove(index);
        self.pairs = pairs;
        Some(pair)
    }

    /// Removes and returns the trailing item, if there is one.
    pub fn remove_tail(&mut self) -> (tail: Option<Item>)
        ensures
            tail == old(self).spec_tail(),
            final(self).spec_pairs() == old(self).spec_pairs(),
            final(self).spec_tail() is None,
    {
        proof {
            use_type_invariant(&*self);
        }
        let mut tail = None;
        std::mem::swap(&mut tail, &mut self.tail);
        tail
    }
}

impl<Item, Punct> Punctuated<Item, Punct> {
    /// Maps every item with `item_pred` and every punctuation with `punct_pred`.
    pub fn map<NewItem, NewPunct, ItemPred: Fn(Item) -> NewItem, PunctPred: Fn(Punct) -> NewPunct>(
        self,
        item_pred: ItemPred,
        punct_pred: PunctPred,
    ) -> (mapped: Punctuated<NewItem, NewPunct>)
        requires
            forall|i: int|
                0 <= i < self.spec_pairs().len() ==> {
                    &&& call_requires(item_pred, (#[trigger] self.spec_pairs()[i].0,))
                    &&& call_requires(punct_pred, (self.spec_pairs()[i].1,))
                },
            self.spec_tail() matches Some(t) ==> call_requires(item_pred, (t,)),
        ensures
            mapped.spec_pairs().len() == self.spec_pairs().len(),
            forall|i: int|
                0 <= i < self.spec_pairs().len() ==> {
                    &&& call_ensures(
                        item_pred,
                        (self.spec_pairs()[i].0,),
                        (#[trigger] mapped.spec_pairs()[i]).0,
                    )
                    &&& call_ensures(punct_pred, (self.spec_pairs()[i].1,), mapped.spec_pairs()[i].1)
                },
            mapped.spec_tail() is Some <==> self.spec_tail() is Some,
            self.spec_tail() matches Some(t) ==> call_ensures(item_pred, (t,), mapped.spec_tail()->0),
    {
        proof {
            use_type_invariant(&self);
        }
        let ghost old_pairs = self.spec_pairs();
        let Punctuated { pairs, tail } = self;
        let mut new_pairs: Vec<(NewItem, NewPunct)> = Vec::new();
        for pair in it: pairs.into_iter()
            invariant
                it.seq() == old_pairs,
                new_pairs@.len() == it.index(),
                forall|i: int|
                    0 <= i < old_pairs.len() ==> {
                        &&& call_requires(item_pred, (#[trigger] old_pairs[i].0,))
                        &&& call_requires(punct_pred, (old_pairs[i].1,))
                    },
                forall|i: int|
                    0 <= i < new_pairs@.len() ==> {
                        &&& call_ensures(item_pred, (old_pairs[i].0,), (#[trigger] new_pairs@[i]).0)
                        &&& call_ensures(punct_pred, (old_pairs[i].1,), new_pairs@[i].1)
                    },
        {
            let (item, punct) = pair;
            let new_item = item_pred(item);
            let new_punct = punct_pred(punct);
            new_pairs.push((new_item, new_punct));
        }
        let new_tail = match tail {
            Some(t) => Some(item_pred(t)),
            None => None,
        };
        Punctuated { pairs: new_pairs, tail: new_tail }
    }

    /// Maps every item with `item_pred`, keeping the punctuation.
    pub fn map_items<NewItem, ItemPred: Fn(Item) -> NewItem>(self, item_pred: ItemPred) -> (mapped:
        Punctuated<NewItem, Punct>)
        requires
            forall|i: int|
                0 <= i < self.spec_pairs().len() ==> call_requires(
                    item_pred,
                    (#[trigger] self.spec_pairs()[i].0,),
                ),
            self.spec_tail() matches Some(t) ==> call_requires(item_pred, (t,)),
        ensures
            mapped.spec_pairs().len() == self.spec_pairs().len(),
            forall|i: int|
                0 <= i < self.spec_pairs().len() ==> {
                    &&& call_ensures(
                        item_pred,
                        (self.spec_pairs()[i].0,),
                        (#[trigger] mapped.spec_pairs()[i]).0,
                    )
                    &&& mapped.spec_pairs()[i].1 == self.spec_pairs()[i].1
                },
            mapped.spec_tail() is Some <==> self.spec_tail() is Some,
            self.spec_tail() matches Some(t) ==> call_ensures(item_pred, (t,), mapped.spec_tail()->0),
    {
        let keep = |p: Punct| -> (q: Punct)
            ensures
                q == p,
            { p };
        self.map(item_pred, keep)
    }

    /// Maps every punctuation with `punct_pred`, keeping the items.
    pub fn map_puncts<NewPunct, PunctPred: Fn(Punct) -> NewPunct>(self, punct_pred: PunctPred) -> (mapped:
        Punctuated<Item, NewPunct>)
        requires
            forall|i: int|
                0 <= i < self.spec_pairs().len() ==> call_requires(
                    punct_pred,
                    (#[trigger] self.spec_pairs()[i].1,),
                ),
        ensures
            mapped.spec_pairs().len() == self.spec_pairs().len(),
            forall|i: int|
                0 <= i < self.spec_pairs().len() ==> {
                    &&& (#[trigger] mapped.spec_pairs()[i]).0 == self.spec_pairs()[i].0
                    &&& call_ensures(punct_pred, (self.spec_pairs()[i].1,), mapped.spec_pairs()[i].1)
                },
            mapped.spec_tail() == self.spec_tail(),
    {
        let keep = |i: Item| -> (j: Item)
            ensures
                j == i,
            { i };
        self.map(keep, punct_pred)
    }
}

impl<Item, Punct> Punctuated<Item, Punct> {
    /// Maps every item with `item_pred` and every punctuation with `punct_pred`, by reference.
    pub fn map_ref<NewItem, NewPunct, ItemPred: Fn(&Item) -> NewItem, PunctPred: Fn(&Punct) -> NewPunct>(
        &self,
        item_pred: ItemPred,
        punct_pred: PunctPred,
    ) -> (mapped: Punctuated<NewItem, NewPunct>)
        requires
            forall|i: int|
                0 <= i < self.spec_pairs().len() ==> {
                    &&& call_requires(item_pred, (&(#[trigger] self.spec_pairs()[i]).0,))
                    &&& call_requires(punct_pred, (&self.spec_pairs()[i].1,))
                },
            self.spec_tail() matches Some(t) ==> call_requires(item_pred, (&t,)),
        ensures
            mapped.spec_pairs().len() == self.spec_pairs().len(),
            forall|i: int|
                0 <= i < self.spec_pairs().len() ==> {
                    &&& call_ensures(
                        item_pred,
                        (&self.spec_pairs()[i].0,),
                        (#[trigger] mapped.spec_pairs()[i]).0,
                    )
                    &&& call_ensures(punct_pred, (&self.spec_pairs()[i].1,), mapped.spec_pairs()[i].1)
                },
            mapped.spec_tail() is Some <==> self.spec_tail() is Some,
            self.spec_tail() matches Some(t) ==> call_ensures(item_pred, (&t,), mapped.spec_tail()->0),
    {
        proof {
            use_type_invariant(self);
        }
        let mut new_pairs: Vec<(NewItem, NewPunct)> = Vec::new();
        let n = self.pairs.len();
        for k in 0..n
            invariant
                n == self.spec_pairs().len(),
                new_pairs@.len() == k,
                forall|i: int|
                    0 <= i < self.spec_pairs().len() ==> {
                        &&& call_requires(item_pred, (&(#[trigger] self.spec_pairs()[i]).0,))
                        &&& call_requires(punct_pred, (&self.spec_pairs()[i].1,))
                    },
                forall|i: int|
                    0 <= i < k ==> {
                        &&& call_ensures(
                            item_pred,
                            (&self.spec_pairs()[i].0,),
                            (#[trigger] new_pairs@[i]).0,
                        )
                        &&& call_ensures(punct_pred, (&self.spec_pairs()[i].1,), new_pairs@[i].1)
                    },
        {
            let pair = &self.pairs[k];
            let new_item = item_pred(&pair.0);
            let new_punct = punct_pred(&pair.1);
            new_pairs.push((new_item, new_punct));
        }
        let new_tail = match &self.tail {
            Some(t) => Some(item_pred(t)),
            None => None,
        };
        Punctuated { pairs: new_pairs, tail: new_tail }
    }

    /// Maps every item with `item_pred` by reference, copying the punctuation.
    pub fn map_ref_items<NewItem, ItemPred: Fn(&Item) -> NewItem>(&self, item_pred: ItemPred) -> (mapped:
        Punctuated<NewItem, Punct>) where Punct: Clone
        requires
            forall|i: int|
                0 <= i < self.spec_pairs().len() ==> call_requires(
                    item_pred,
                    (&(#[trigger] self.spec_pairs()[i]).0,),
                ),
            self.spec_tail() matches Some(t) ==> call_requires(item_pred, (&t,)),
        ensures
            mapped.spec_pairs().len() == self.spec_pairs().len(),
            forall|i: int|
                0 <= i < self.spec_pairs().len() ==> {
                    &&& call_ensures(
                        item_pred,
                        (&self.spec_pairs()[i].0,),
                        (#[trigger] mapped.spec_pairs()[i]).0,
                    )
                    &&& cloned(self.spec_pairs()[i].1, mapped.spec_pairs()[i].1)
                },
            mapped.spec_tail() is Some <==> self.spec_tail() is Some,
            self.spec_tail() matches Some(t) ==> call_ensures(item_pred, (&t,), mapped.spec_tail()->0),
    {
        let copy = |p: &Punct| -> (q: Punct)
            ensures
                cloned(*p, q),
            { p.clone() };
        self.map_ref(item_pred, copy)
    }

    /// Maps every punctuation with `punct_pred` by reference, copying the items.
    pub fn map_ref_puncts<NewPunct, PunctPred: Fn(&Punct) -> NewPunct>(&self, punct_pred: PunctPred) -> (mapped:
        Punctuated<Item, NewPunct>) where Item: Clone
        requires
            forall|i: int|
                0 <= i < self.spec_pairs().len() ==> call_requires(
                    punct_pred,
                    (&(#[trigger] self.spec_pairs()[i]).1,),
                ),
        ensures
            mapped.spec_pairs().len() == self.spec_pairs().len(),
            forall|i: int|
                0 <= i < self.spec_pairs().len() ==> {
                    &&& cloned(self.spec_pairs()[i].0, (#[trigger] mapped.spec_pairs()[i]).0)
                    &&& call_ensures(punct_pred, (&self.spec_pairs()[i].1,), mapped.spec_pairs()[i].1)
                },
            mapped.spec_tail() is Some <==> self.spec_tail() is Some,
            self.spec_tail() matches Some(t) ==> cloned(t, mapped.spec_tail()->0),
    {
        let copy = |i: &Item| -> (j: Item)
            ensures
                cloned(*i, j),
            { i.clone() };
        self.map_ref(copy, punct_pred)
    }

    /// Takes the list apart into its pairs and its trailing item.
    pub fn unwrap(self) -> (parts: (Vec<(Item, Punct)>, Option<Item>))
        ensures
            parts.0@ == self.spec_pairs(),
            parts.1 == self.spec_tail(),
    {
        let Punctuated { pairs, tail } = self;
        (pairs, tail)
    }

    /// All items in order, without the punctuation.
    pub fn unwrap_items(self) -> (items: Vec<Item>)
        ensures
            items@ == self.spec_items(),
    {
        let ghost old_pairs = self.spec_pairs();
        let Punctuated { pairs, tail } = self;
        let mut items: Vec<Item> = Vec::new();
        for pair in it: pairs.into_iter()
            invariant
                it.seq() == old_pairs,
                items@ == old_pairs.take(it.index() as int).map_values(|p: (Item, Punct)| p.0),
        {
            let ghost k = it.index();
            let (item, _) = pair;
            items.push(item);
            assert(old_pairs.take(k + 1).map_values(|p: (Item, Punct)| p.0)
                == old_pairs.take(k as int).map_values(|p: (Item, Punct)| p.0).push(old_pairs[k as int].0));
        }
        assert(old_pairs.take(old_pairs.len() as int) == old_pairs);
        if let Some(t) = tail {
            items.push(t);
        }
        items
    }

    /// All punctuation in order, without the items.
    pub fn unwrap_puncts(self) -> (puncts: Vec<Punct>)
        ensures
            puncts@ == self.spec_puncts(),
    {
        let ghost old_pairs = self.spec_pairs();
        let Punctuated { pairs, tail: _ } = self;
        let mut puncts: Vec<Punct> = Vec::new();
        for pair in it: pairs.into_iter()
            invariant
                it.seq() == old_pairs,
                puncts@ == old_pairs.take(it.index() as int).map_values(|p: (Item, Punct)| p.1),
        {
            let ghost k = it.index();
            let (_, punct) = pair;
            puncts.push(punct);
            assert(old_pairs.take(k + 1).map_values(|p: (Item, Punct)| p.1)
                == old_pairs.take(k as int).map_values(|p: (Item, Punct)| p.1).push(old_pairs[k as int].1));
        }
        assert(old_pairs.take(old_pairs.len() as int) == old_pairs);
        puncts
    }

    /// References to all items in order.
    pub fn items(&self) -> (items: Vec<&Item>)
        ensures
            items@.len() == self.spec_items().len(),
            forall|i: int| 0 <= i < items@.len() ==> *(#[trigger] items@[i]) == self.spec_items()[i],
    {
        let mut items: Vec<&Item> = Vec::new();
        let n = self.pairs.len();
        for k in 0..n
            invariant
                n == self.spec_pairs().len(),
                items@.len() == k,
                forall|i: int| 0 <= i < k ==> *(#[trigger] items@[i]) == self.spec_pairs()[i].0,
        {
            items.push(&self.pairs[k].0);
        }
        if let Some(t) = &self.tail {
            items.push(t);
        }
        items
    }

    /// References to all punctuation in order.
    pub fn puncts(&self) -> (puncts: Vec<&Punct>)
        ensures
            puncts@.len() == self.spec_puncts().len(),
            forall|i: int| 0 <= i < puncts@.len() ==> *(#[trigger] puncts@[i]) == self.spec_puncts()[i],
    {
        let mut puncts: Vec<&Punct> = Vec::new();
        let n = self.pairs.len();
        for k in 0..n
            invariant
                n == self.spec_pairs().len(),
                puncts@.len() == k,
                forall|i: int| 0 <= i < k ==> *(#[trigger] puncts@[i]) == self.spec_pairs()[i].1,
        {
            puncts.push(&self.pairs[k].1);
        }
        puncts
    }

    /// The item at `index`, counting the trailing one last.
    pub fn nth_item(&self, index: usize) -> (item: Option<&Item>)
        ensures
            index < self.spec_len() ==> item == Some(&self.spec_items()[index as int]),
            index >= self.spec_len() ==> item is None,
    {
        if index >= self.len() {
            return None;
        }
        if index >= self.pairs.len() {
            return self.tail.as_ref();
        }
        Some(&self.pairs[index].0)
    }
}

impl Punctuated<Position, Position> {
    /// Where the first item starts; the list may not be empty.
    pub fn start(&self) -> (start: usize)
        requires
            self.spec_len() > 0,
        ensures
            start == self.spec_items()[0].spec_start(),
    {
        if self.pairs.len() > 0 {
            self.pairs[0].0.start()
        } else {
            self.tail.unwrap().start()
        }
    }

    /// Where the list ends: at its trailing item, or else at its last punctuation.
    /// The list may not be empty.
    pub fn end(&self) -> (end: usize)
        requires
            self.spec_len() > 0,
        ensures
            end == match self.spec_tail() {
                Some(t) => t.spec_end(),
                None => self.spec_pairs().last().1.spec_end(),
            },
    {
        match &self.tail {
            Some(t) => t.end(),
            None => self.pairs[self.pairs.len() - 1].1.end(),
        }
    }

    /// The region from the list's start to its end. The list may not be empty, and its start
    /// may not lie after its end.
    pub fn position(&self) -> (p: Position)
        requires
            self.spec_len() > 0,
            self.spec_items()[0].spec_start() <= match self.spec_tail() {
                Some(t) => t.spec_end(),
                None => self.spec_pairs().last().1.spec_end(),
            },
        ensures
            p.spec_start() == self.spec_items()[0].spec_start(),
            p.spec_end() == match self.spec_tail() {
                Some(t) => t.spec_end(),
                None => self.spec_pairs().last().1.spec_end(),
            },
    {
        Position::new(self.start(), self.end())
    }
}

/// A list is larger than its pairs and its trailing item, so that a definition over lists
/// may recurse into them.
pub proof fn lemma_parts_decrease<Item, Punct>(list: Punctuated<Item, Punct>)
    ensures
        decreases_to!(list => list.spec_pairs()),
        list.spec_tail() is Some ==> decreases_to!(list => list.spec_tail()->0),
{
    assert(decreases_to!(list => list.pairs));
    assert(decreases_to!(list.pairs => list.pairs@));
    if list.tail is Some {
        assert(decreases_to!(list => list.tail));
        assert(decreases_to!(list.tail => list.tail->0));
    }
}

/// A list holds as many items as it counts: every pair holds one, and so does the tail.
pub proof fn lemma_items_len<Item, Punct>(list: Punctuated<Item, Punct>)
    ensures
        list.spec_items().len() == list.spec_len(),
        list.spec_puncts().len() == list.spec_pairs().len(),
{
}

/// A list is empty exactly when it counts no items.
pub proof fn lemma_empty_iff_no_items<Item, Punct>(list: Punctuated<Item, Punct>)
    ensures
        (list.spec_pairs().len() == 0 && list.spec_tail() is None) <==> list.spec_len() == 0,
        list.spec_len() == 0 <==> list.spec_items().len() == 0,
{
}

/// Pushing an item and then punctuation behind it (as `push_item` and `push_punct` do)
/// extends the items by that item and the punctuation by that punctuation.
pub proof fn lemma_push_item_then_punct<Item, Punct>(
    before: Punctuated<Item, Punct>,
    after: Punctuated<Item, Punct>,
    item: Item,
    punct: Punct,
)
    requires
        before.spec_tail() is None,
        after.spec_pairs() == before.spec_pairs().push((item, punct)),
        after.spec_tail() is None,
    ensures
        after.spec_items() == before.spec_items().push(item),
        after.spec_puncts() == before.spec_puncts().push(punct),
        after.spec_len() == before.spec_len() + 1,
{
    assert(after.spec_items() =~= before.spec_items().push(item));
    assert(after.spec_puncts() =~= before.spec_puncts().push(punct));
}

/// Pushing a trailing item (as `push_item` does) extends the items by it and leaves the
/// punctuation as it was.
pub proof fn lemma_push_item<Item, Punct>(
    before: Punctuated<Item, Punct>,
    after: Punctuated<Item, Punct>,
    item: Item,
)
    requires
        before.spec_tail() is None,
        after.spec_pairs() == before.spec_pairs(),
        after.spec_tail() == Some(item),
    ensures
        after.spec_items() == before.spec_items().push(item),
        after.spec_puncts() == before.spec_puncts(),
        after.spec_len() == before.spec_len() + 1,
{
}

/// The tokens of (item, punctuation) pairs whose parts are nodes, in order.
pub open spec fn pairs_tokens<'src, Item: ASTNode<'src>, Punct: ASTNode<'src>>(
    pairs: Seq<(Item, Punct)>,
) -> Seq<Token<'src>>
    decreases pairs.len(),
{
    if pairs.len() == 0 {
        Seq::empty()
    } else {
        pairs_tokens(pairs.drop_last()) + pairs.last().0.node_tokens() + pairs.last().1.node_tokens()
    }
}

impl<Item, Punct> Punctuated<Item, Punct> {
    /// The span of the last part of the list: its trailing item, or else its last
    /// punctuation.
    pub open spec fn last_span<'src>(self) -> Span<'src> where Item: ASTNode<'src>, Punct: ASTNode<'src> {
        match self.spec_tail() {
            Some(t) => t.node_span(),
            None => self.spec_pairs().last().1.node_span(),
        }
    }

    /// The last part of the list can give its span.
    pub open spec fn last_has_span<'src>(self) -> bool where Item: ASTNode<'src>, Punct: ASTNode<'src> {
        match self.spec_tail() {
            Some(t) => t.has_span(),
            None => self.spec_pairs().last().1.has_span(),
        }
    }
}

impl<Item: Clone, Punct: Clone> Clone for Punctuated<Item, Punct> {
    /// A copy holding a clone of each item and each punctuation, in the same places.
    fn clone(&self) -> (copy: Self)
        ensures
            copy.spec_pairs().len() == self.spec_pairs().len(),
            forall|i: int|
                0 <= i < self.spec_pairs().len() ==> {
                    &&& cloned(self.spec_pairs()[i].0, (#[trigger] copy.spec_pairs()[i]).0)
                    &&& cloned(self.spec_pairs()[i].1, copy.spec_pairs()[i].1)
                },
            copy.spec_tail() is Some <==> self.spec_tail() is Some,
            self.spec_tail() matches Some(t) ==> cloned(t, copy.spec_tail()->0),
    {
        let copy_item = |x: &Item| -> (y: Item)
            ensures
                cloned(*x, y),
            { x.clone() };
        let copy_punct = |x: &Punct| -> (y: Punct)
            ensures
                cloned(*x, y),
            { x.clone() };
        self.map_ref(copy_item, copy_punct)
    }
}

/// Mapping the items alone is mapping the items and keeping each punctuation: where
/// `item_pred` gives one result for each item and `keep` gives back what it is handed,
/// `map_items(item_pred)` and `map(item_pred, keep)` give the same list.
pub proof fn lemma_map_items_is_map<Item, Punct, NewItem, ItemPred: Fn(Item) -> NewItem, Keep: Fn(
    Punct,
) -> Punct>(
    list: Punctuated<Item, Punct>,
    item_pred: ItemPred,
    keep: Keep,
    by_items: Punctuated<NewItem, Punct>,
    by_map: Punctuated<NewItem, Punct>,
)
    requires
        forall|x: Item, y: NewItem, z: NewItem|
            #![trigger call_ensures(item_pred, (x,), y), call_ensures(item_pred, (x,), z)]
            call_ensures(item_pred, (x,), y) && call_ensures(item_pred, (x,), z) ==> y == z,
        forall|x: Punct, y: Punct| #[trigger] call_ensures(keep, (x,), y) ==> y == x,
        by_items.spec_pairs().len() == list.spec_pairs().len(),
        forall|i: int|
            0 <= i < list.spec_pairs().len() ==> {
                &&& call_ensures(
                    item_pred,
                    (list.spec_pairs()[i].0,),
                    (#[trigger] by_items.spec_pairs()[i]).0,
                )
                &&& by_items.spec_pairs()[i].1 == list.spec_pairs()[i].1
            },
        by_items.spec_tail() is Some <==> list.spec_tail() is Some,
        list.spec_tail() matches Some(t) ==> call_ensures(item_pred, (t,), by_items.spec_tail()->0),
        by_map.spec_pairs().len() == list.spec_pairs().len(),
        forall|i: int|
            0 <= i < list.spec_pairs().len() ==> {
                &&& call_ensures(
                    item_pred,
                    (list.spec_pairs()[i].0,),
                    (#[trigger] by_map.spec_pairs()[i]).0,
                )
                &&& call_ensures(keep, (list.spec_pairs()[i].1,), by_map.spec_pairs()[i].1)
            },
        by_map.spec_tail() is Some <==> list.spec_tail() is Some,
        list.spec_tail() matches Some(t) ==> call_ensures(item_pred, (t,), by_map.spec_tail()->0),
    ensures
        by_items.spec_pairs() == by_map.spec_pairs(),
        by_items.spec_tail() == by_map.spec_tail(),
{
    assert forall|i: int| 0 <= i < list.spec_pairs().len() implies by_items.spec_pairs()[i]
        == by_map.spec_pairs()[i] by {
        let x = list.spec_pairs()[i];
        assert(call_ensures(item_pred, (x.0,), by_items.spec_pairs()[i].0));
        assert(call_ensures(item_pred, (x.0,), by_map.spec_pairs()[i].0));
        assert(call_ensures(keep, (x.1,), by_map.spec_pairs()[i].1));
    }
    assert(by_items.spec_pairs() =~= by_map.spec_pairs());
    if let Some(t) = list.spec_tail() {
        assert(call_ensures(item_pred, (t,), by_items.spec_tail()->0));
        assert(call_ensures(item_pred, (t,), by_map.spec_tail()->0));
    }
}

/// Mapping the items with a function that gives back what it is handed leaves the list as
/// it was.
pub proof fn lemma_map_items_identity<Item, Punct, Keep: Fn(Item) -> Item>(
    list: Punctuated<Item, Punct>,
    keep: Keep,
    mapped: Punctuated<Item, Punct>,
)
    requires
        forall|x: Item, y: Item| #[trigger] call_ensures(keep, (x,), y) ==> y == x,
        mapped.spec_pairs().len() == list.spec_pairs().len(),
        forall|i: int|
            0 <= i < list.spec_pairs().len() ==> {
                &&& call_ensures(
                    keep,
                    (list.spec_pairs()[i].0,),
                    (#[trigger] mapped.spec_pairs()[i]).0,
                )
                &&& mapped.spec_pairs()[i].1 == list.spec_pairs()[i].1
            },
        mapped.spec_tail() is Some <==> list.spec_tail() is Some,
        list.spec_tail() matches Some(t) ==> call_ensures(keep, (t,), mapped.spec_tail()->0),
    ensures
        mapped.spec_pairs() == list.spec_pairs(),
        mapped.spec_tail() == list.spec_tail(),
{
    assert forall|i: int| 0 <= i < list.spec_pairs().len() implies mapped.spec_pairs()[i]
        == list.spec_pairs()[i] by {
        assert(call_ensures(keep, (list.spec_pairs()[i].0,), mapped.spec_pairs()[i].0));
    }
    assert(mapped.spec_pairs() =~= list.spec_pairs());
    if let Some(t) = list.spec_tail() {
        assert(call_ensures(keep, (t,), mapped.spec_tail()->0));
    }
}

/// Mapping by reference is mapping a copy: where `item_pred` and `punct_pred` give one
/// result for each argument, and `item_by_value` and `punct_by_value` give for a value what
/// the first two give for a reference to it, `map_ref(item_pred, punct_pred)` on a list and
/// `map(item_by_value, punct_by_value)` on a list holding the same parts give the same list.
pub proof fn lemma_map_ref_is_map<
    Item,
    Punct,
    NewItem,
    NewPunct,
    ItemPred: Fn(&Item) -> NewItem,
    PunctPred: Fn(&Punct) -> NewPunct,
    ItemByValue: Fn(Item) -> NewItem,
    PunctByValue: Fn(Punct) -> NewPunct,
>(
    list: Punctuated<Item, Punct>,
    item_pred: ItemPred,
    punct_pred: PunctPred,
    item_by_value: ItemByValue,
    punct_by_value: PunctByValue,
    copy: Punctuated<Item, Punct>,
    by_ref: Punctuated<NewItem, NewPunct>,
    by_value: Punctuated<NewItem, NewPunct>,
)
    requires
        forall|x: Item, y: NewItem, z: NewItem|
            #![trigger call_ensures(item_pred, (&x,), y), call_ensures(item_pred, (&x,), z)]
            call_ensures(item_pred, (&x,), y) && call_ensures(item_pred, (&x,), z) ==> y == z,
        forall|x: Punct, y: NewPunct, z: NewPunct|
            #![trigger call_ensures(punct_pred, (&x,), y), call_ensures(punct_pred, (&x,), z)]
            call_ensures(punct_pred, (&x,), y) && call_ensures(punct_pred, (&x,), z) ==> y == z,
        forall|x: Item, y: NewItem| #[trigger] call_ensures(item_by_value, (x,), y) ==> call_ensures(
            item_pred,
            (&x,),
            y,
        ),
        forall|x: Punct, y: NewPunct| #[trigger] call_ensures(punct_by_value, (x,), y) ==> call_ensures(
            punct_pred,
            (&x,),
            y,
        ),
        copy.spec_pairs() == list.spec_pairs(),
        copy.spec_tail() == list.spec_tail(),
        by_ref.spec_pairs().len() == list.spec_pairs().len(),
        forall|i: int|
            0 <= i < list.spec_pairs().len() ==> {
                &&& call_ensures(
                    item_pred,
                    (&list.spec_pairs()[i].0,),
                    (#[trigger] by_ref.spec_pairs()[i]).0,
                )
                &&& call_ensures(punct_pred, (&list.spec_pairs()[i].1,), by_ref.spec_pairs()[i].1)
            },
        by_ref.spec_tail() is Some <==> list.spec_tail() is Some,
        list.spec_tail() matches Some(t) ==> call_ensures(item_pred, (&t,), by_ref.spec_tail()->0),
        by_value.spec_pairs().len() == copy.spec_pairs().len(),
        forall|i: int|
            0 <= i < copy.spec_pairs().len() ==> {
                &&& call_ensures(
                    item_by_value,
                    (copy.spec_pairs()[i].0,),
                    (#[trigger] by_value.spec_pairs()[i]).0,
                )
                &&& call_ensures(punct_by_value, (copy.spec_pairs()[i].1,), by_value.spec_pairs()[i].1)
            },
        by_value.spec_tail() is Some <==> copy.spec_tail() is Some,
        copy.spec_tail() matches Some(t) ==> call_ensures(item_by_value, (t,), by_value.spec_tail()->0),
    ensures
        by_ref.spec_pairs() == by_value.spec_pairs(),
        by_ref.spec_tail() == by_value.spec_tail(),
{
    assert forall|i: int| 0 <= i < list.spec_pairs().len() implies by_ref.spec_pairs()[i]
        == by_value.spec_pairs()[i] by {
        let x = list.spec_pairs()[i];
        assert(call_ensures(item_pred, (&x.0,), by_ref.spec_pairs()[i].0));
        assert(call_ensures(item_by_value, (x.0,), by_value.spec_pairs()[i].0));
        assert(call_ensures(item_pred, (&x.0,), by_value.spec_pairs()[i].0));
        assert(call_ensures(punct_pred, (&x.1,), by_ref.spec_pairs()[i].1));
        assert(call_ensures(punct_by_value, (x.1,), by_value.spec_pairs()[i].1));
        assert(call_ensures(punct_pred, (&x.1,), by_value.spec_pairs()[i].1));
    }
    assert(by_ref.spec_pairs() =~= by_value.spec_pairs());
    if let Some(t) = list.spec_tail() {
        assert(call_ensures(item_pred, (&t,), by_ref.spec_tail()->0));
        assert(call_ensures(item_by_value, (t,), by_value.spec_tail()->0));
        assert(call_ensures(item_pred, (&t,), by_value.spec_tail()->0));
    }
}

impl<'src, Item: ASTNode<'src>, Punct: ASTNode<'src>> ASTNode<'src> for Punctuated<Item, Punct> {
    open spec fn node_tokens(&self) -> Seq<Token<'src>> {
        pairs_tokens(self.spec_pairs()) + match self.spec_tail() {
            Some(t) => t.node_tokens(),
            None => Seq::empty(),
        }
    }

    /// The list is not empty, its first item and its last part can give their spans, and
    /// these lie in one source, the first before the end of the last.
    open spec fn has_span(&self) -> bool {
        &&& self.spec_len() > 0
        &&& self.spec_items()[0].has_span()
        &&& self.last_has_span()
        &&& self.last_span().spec_source() == self.spec_items()[0].node_span().spec_source()
        &&& self.spec_items()[0].node_span().spec_position().spec_start()
            <= self.last_span().spec_position().spec_end()
    }

    /// From the start of the first item to the end of the last part.
    open spec fn node_span(&self) -> Span<'src> {
        join_spans(self.spec_items()[0].node_span(), self.last_span())
    }

    proof fn lemma_span_valid(&self) {
        self.spec_items()[0].lemma_span_valid();
        match self.spec_tail() {
            Some(t) => t.lemma_span_valid(),
            None => self.spec_pairs().last().1.lemma_span_valid(),
        }
    }

    fn span(&self) -> (s: Span<'src>) {
        proof {
            self.spec_items()[0].lemma_span_valid();
            match self.spec_tail() {
                Some(t) => t.lemma_span_valid(),
                None => self.spec_pairs().last().1.lemma_span_valid(),
            }
        }
        let first = if self.pairs.len() > 0 {
            self.pairs[0].0.span()
        } else {
            self.tail.as_ref().unwrap().span()
        };
        let last = match &self.tail {
            Some(t) => t.span(),
            None => self.pairs[self.pairs.len() - 1].1.span(),
        };
        join(first, last)
    }
}

} // verus!
