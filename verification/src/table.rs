//! The style table: composed styles by the base name of their selector.

use vstd::prelude::*;
use crate::lists::{style_list_items, text_list_items, StyleList, TextList};
use crate::parser::{first_key, lemma_first_key, lemma_key_absent, lemma_no_key};
use crate::style::{Style, StyleView};
use crate::text::{same_text, split_words, texts, words};

verus! {

/// A style table as a mathematical value: names and styles, two lists of
/// equal length. In a table no name has two entries.
pub ghost struct StyleMapView {
    pub keys: Seq<Seq<char>>,
    pub styles: Seq<StyleView>,
}

impl StyleMapView {
    /// The table without entries.
    pub open spec fn empty() -> StyleMapView {
        StyleMapView { keys: Seq::<Seq<char>>::empty(), styles: Seq::<StyleView>::empty() }
    }

    /// Every name has its style.
    pub open spec fn wf(self) -> bool {
        self.keys.len() == self.styles.len()
    }

    /// No name has two entries.
    pub open spec fn distinct(self) -> bool {
        forall|i: int, j: int|
            0 <= i < j < self.keys.len() ==> #[trigger] self.keys[i] != #[trigger] self.keys[j]
    }

    /// Whether the table has an entry for `key`.
    pub open spec fn has(self, key: Seq<char>) -> bool {
        first_key(self.keys, key, 0) is Some
    }

    /// The style of `key`.
    pub open spec fn get(self, key: Seq<char>) -> Option<StyleView> {
        match first_key(self.keys, key, 0) {
            Some(i) => Some(self.styles[i]),
            None => None,
        }
    }

    /// The table without the first entry for `key`.
    pub open spec fn without(self, key: Seq<char>) -> StyleMapView {
        match first_key(self.keys, key, 0) {
            Some(i) => StyleMapView { keys: self.keys.remove(i), styles: self.styles.remove(i) },
            None => self,
        }
    }

    /// The table with one more entry at its end.
    pub open spec fn with(self, key: Seq<char>, style: StyleView) -> StyleMapView {
        StyleMapView { keys: self.keys.push(key), styles: self.styles.push(style) }
    }

    /// The table in which `key` has the style `style`: the entry of the key,
    /// if there was one, gives way to a new last entry; the other entries
    /// stay as they are.
    pub open spec fn replaced(self, key: Seq<char>, style: StyleView) -> StyleMapView {
        self.without(key).with(key, style)
    }

    /// `style` with the styles of the first `n` of `names` laid over it, one
    /// after the other; a name without an entry adds nothing.
    pub open spec fn applied_upto(self, style: StyleView, names: Seq<Seq<char>>, n: int) -> StyleView
        decreases n,
    {
        if n <= 0 || n > names.len() {
            style
        } else {
            let before = self.applied_upto(style, names, n - 1);
            match self.get(names[n - 1]) {
                Some(found) => before.merged(found),
                None => before,
            }
        }
    }

    /// `style` with the styles of the class names in `classes` laid over it,
    /// from left to right. The names are the words of `classes`.
    pub open spec fn applied(self, style: StyleView, classes: Seq<char>) -> StyleView {
        self.applied_upto(style, words(classes), words(classes).len() as int)
    }
}

/// Taking a name out of a table leaves a table, which has no entry for the
/// name; the other entries stay.
pub proof fn lemma_without(map: StyleMapView, key: Seq<char>)
    requires
        map.wf(),
        map.distinct(),
    ensures
        map.without(key).wf(),
        map.without(key).distinct(),
        forall|j: int| 0 <= j < map.without(key).keys.len() ==> #[trigger] map.without(key).keys[j]
            != key,
        map.without(key).get(key) is None,
        map.without(key).without(key) == map.without(key),
        forall|other: Seq<char>| other != key ==> map.without(key).get(other) == map.get(other),
{
    let rest = map.without(key);
    lemma_first_key(map.keys, key, 0);
    match first_key(map.keys, key, 0) {
        Some(i) => {
            assert forall|j: int| 0 <= j < rest.keys.len() implies #[trigger] rest.keys[j]
                != key by {
                if j < i {
                    assert(rest.keys[j] == map.keys[j]);
                } else {
                    assert(rest.keys[j] == map.keys[j + 1]);
                }
            }
            assert forall|a: int, b: int| 0 <= a < b < rest.keys.len() implies #[trigger] rest.keys[a]
                != #[trigger] rest.keys[b] by {
                let a0 = if a < i {
                    a
                } else {
                    a + 1
                };
                let b0 = if b < i {
                    b
                } else {
                    b + 1
                };
                assert(rest.keys[a] == map.keys[a0]);
                assert(rest.keys[b] == map.keys[b0]);
            }
            assert forall|other: Seq<char>| other != key implies rest.get(other) == map.get(
                other,
            ) by {
                lemma_get_after_remove(map, i, other);
            }
        },
        None => {
            lemma_no_key(map.keys, key, 0);
        },
    }
    lemma_key_absent(rest.keys, key, 0);
}

/// The entry of a name is found where it stands, and nowhere else.
pub proof fn lemma_found_at(map: StyleMapView, i: int)
    requires
        map.wf(),
        map.distinct(),
        0 <= i < map.keys.len(),
    ensures
        first_key(map.keys, map.keys[i], 0) == Some(i),
{
    lemma_first_key(map.keys, map.keys[i], 0);
    if first_key(map.keys, map.keys[i], 0) is None {
        lemma_no_key(map.keys, map.keys[i], 0);
    }
}

/// Taking the entry at `i` out changes the style of no other name.
proof fn lemma_get_after_remove(map: StyleMapView, i: int, other: Seq<char>)
    requires
        map.wf(),
        map.distinct(),
        0 <= i < map.keys.len(),
        other != map.keys[i],
    ensures
        (StyleMapView { keys: map.keys.remove(i), styles: map.styles.remove(i) }).get(other)
            == map.get(other),
{
    let rest = StyleMapView { keys: map.keys.remove(i), styles: map.styles.remove(i) };
    lemma_first_key(map.keys, other, 0);
    lemma_first_key(rest.keys, other, 0);
    match first_key(map.keys, other, 0) {
        Some(j) => {
            let j0 = if j < i {
                j
            } else {
                j - 1
            };
            assert(rest.keys[j0] == other);
            assert forall|a: int, b: int| 0 <= a < b < rest.keys.len() implies #[trigger] rest.keys[a]
                != #[trigger] rest.keys[b] by {
                let a0 = if a < i {
                    a
                } else {
                    a + 1
                };
                let b0 = if b < i {
                    b
                } else {
                    b + 1
                };
                assert(rest.keys[a] == map.keys[a0]);
                assert(rest.keys[b] == map.keys[b0]);
            }
            lemma_found_at(rest, j0);
            assert(rest.styles[j0] == map.styles[j]);
        },
        None => {
            lemma_no_key(map.keys, other, 0);
            assert forall|j: int| 0 <= j < rest.keys.len() implies #[trigger] rest.keys[j]
                != other by {
                if j < i {
                    assert(rest.keys[j] == map.keys[j]);
                } else {
                    assert(rest.keys[j] == map.keys[j + 1]);
                }
            }
            lemma_key_absent(rest.keys, other, 0);
        },
    }
}

/// Giving a name a style leaves a table in which the name has that style,
/// in one entry, and every other name has the style it had.
pub proof fn lemma_replaced(map: StyleMapView, key: Seq<char>, style: StyleView)
    requires
        map.wf(),
        map.distinct(),
    ensures
        map.replaced(key, style).wf(),
        map.replaced(key, style).distinct(),
        map.replaced(key, style).get(key) == Some(style),
        forall|other: Seq<char>|
            other != key ==> map.replaced(key, style).get(other) == map.get(other),
{
    lemma_without(map, key);
    let rest = map.without(key);
    let after = map.replaced(key, style);
    assert forall|a: int, b: int| 0 <= a < b < after.keys.len() implies #[trigger] after.keys[a]
        != #[trigger] after.keys[b] by {
        assert(after.keys[a] == rest.keys[a]);
        if b < rest.keys.len() {
            assert(after.keys[b] == rest.keys[b]);
        }
    }
    lemma_found_at(after, rest.keys.len() as int);
    assert forall|other: Seq<char>| other != key implies after.get(other) == map.get(other) by {
        lemma_first_key(rest.keys, other, 0);
        lemma_first_key(after.keys, other, 0);
        match first_key(rest.keys, other, 0) {
            Some(j) => {
                assert(after.keys[j] == other);
                lemma_found_at(after, j);
            },
            None => {
                lemma_no_key(rest.keys, other, 0);
                assert forall|j: int| 0 <= j < after.keys.len() implies #[trigger] after.keys[j]
                    != other by {
                    if j < rest.keys.len() {
                        assert(after.keys[j] == rest.keys[j]);
                    }
                }
                lemma_key_absent(after.keys, other, 0);
            },
        }
    }
}

/// The style table.
pub struct StyleMap {
    keys: TextList,
    styles: StyleList,
}

impl View for StyleMap {
    type V = StyleMapView;

    closed spec fn view(&self) -> StyleMapView {
        StyleMapView { keys: text_list_items(self.keys), styles: style_list_items(self.styles) }
    }
}

impl StyleMap {
    /// Every name has its style, and no name has two entries.
    #[verifier::type_invariant]
    closed spec fn paired(self) -> bool {
        let map = StyleMapView {
            keys: text_list_items(self.keys),
            styles: style_list_items(self.styles),
        };
        map.wf() && map.distinct()
    }

    /// The table without entries.
    pub fn new_const() -> (map: StyleMap)
        ensures
            map@ == StyleMapView::empty(),
    {
        StyleMap { keys: TextList::new(), styles: StyleList::new() }
    }

    /// The number of entries: every name has its style, in one entry.
    pub fn len(&self) -> (n: usize)
        ensures
            n == self@.keys.len(),
            self@.wf(),
            self@.distinct(),
    {
        proof {
            use_type_invariant(&*self);
        }
        self.keys.len()
    }

    /// Takes the table out and leaves one without entries.
    fn take(&mut self) -> (map: StyleMap)
        ensures
            map@ == old(self)@,
            final(self)@ == StyleMapView::empty(),
    {
        let mut map = StyleMap::new_const();
        core::mem::swap(self, &mut map);
        map
    }

    /// The index of the first entry for `key`.
    fn position(&self, key: &str) -> (r: Option<usize>)
        ensures
            r is Some <==> first_key(self@.keys, key@, 0) is Some,
            r matches Some(i) ==> first_key(self@.keys, key@, 0) == Some(i as int) && i
                < self@.keys.len() && i < self@.styles.len(),
    {
        proof {
            lemma_first_key(self@.keys, key@, 0);
        }
        let n = self.len();
        let mut i: usize = 0;
        while i < n
            invariant
                i <= n,
                self@.wf(),
                n == self@.keys.len(),
                first_key(self@.keys, key@, 0) == first_key(self@.keys, key@, i as int),
            decreases n - i,
        {
            if same_text(self.keys.get(i).as_str(), key) {
                return Some(i);
            }
            i = i + 1;
        }
        None
    }

    /// A copy of the style of `key`.
    pub fn get(&self, key: &str) -> (r: Option<Style>)
        ensures
            match r {
                Some(style) => Some(style@),
                None => None,
            } == self@.get(key@),
    {
        match self.position(key) {
            Some(i) => Some(self.styles.get(i).duplicate()),
            None => None,
        }
    }

    /// Whether the table has no entry.
    pub fn is_empty(&self) -> (r: bool)
        ensures
            r == (self@.keys.len() == 0),
    {
        self.keys.len() == 0
    }

    /// Takes every entry out.
    pub fn clear(&mut self)
        ensures
            final(self)@ == StyleMapView::empty(),
    {
        *self = StyleMap::new_const();
    }

    /// Gives `key` the style `style`: the entry of the key, if there is one,
    /// gives way to a new last entry, and the other entries stay.
    pub fn insert(&mut self, key: &str, style: Style)
        ensures
            final(self)@ == old(self)@.replaced(key@, style@),
            final(self)@.get(key@) == Some(style@),
            forall|other: Seq<char>|
                other != key@ ==> final(self)@.get(other) == old(self)@.get(other),
    {
        let found = self.position(key);
        let map = self.take();
        proof {
            use_type_invariant(&map);
            lemma_replaced(map@, key@, style@);
        }
        let StyleMap { mut keys, mut styles } = map;
        if let Some(i) = found {
            keys.remove(i);
            styles.remove(i);
        }
        keys.push(key.to_owned());
        styles.push(style);
        *self = StyleMap { keys, styles };
    }

    /// Takes the entry for `key` out and returns its style. The table then
    /// has no entry for `key`.
    pub fn remove(&mut self, key: &str) -> (r: Option<Style>)
        ensures
            match r {
                Some(style) => Some(style@),
                None => None,
            } == old(self)@.get(key@),
            final(self)@ == old(self)@.without(key@),
            final(self)@.get(key@) is None,
            final(self)@.without(key@) == final(self)@,
    {
        proof {
            use_type_invariant(&*self);
            lemma_without(self@, key@);
        }
        match self.position(key) {
            Some(i) => {
                let map = self.take();
                proof {
                    use_type_invariant(&map);
                    lemma_without(map@, key@);
                }
                let StyleMap { mut keys, mut styles } = map;
                keys.remove(i);
                let style = styles.remove(i);
                *self = StyleMap { keys, styles };
                Some(style)
            },
            None => None,
        }
    }

    /// `s` with the styles of the class names in `class_str` laid over it,
    /// from left to right.
    #[must_use]
    pub fn apply_classes(&self, s: Style, class_str: &str) -> (r: Style)
        ensures
            r@ == self@.applied(s@, class_str@),
    {
        let names = split_words(class_str);
        let ghost start = s@;
        let mut style = s;
        let mut i: usize = 0;
        while i < names.len()
            invariant
                i <= names@.len(),
                texts(names@) == words(class_str@),
                style@ == self@.applied_upto(start, words(class_str@), i as int),
            decreases names@.len() - i,
        {
            if let Some(found) = self.get(names[i].as_str()) {
                style = style.apply(&found);
            }
            i = i + 1;
        }
        style
    }
}

} // verus!
