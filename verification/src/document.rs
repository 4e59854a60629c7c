//! A parsed page as the adapters read it, and the queries they put to it.
//!
//! A document is the list of its elements in document order, each with its
//! depth in the tree: an element's subtree is the run of elements that follow
//! it and lie deeper than it does, and its children are those of them that
//! lie exactly one level deeper. Elements are named by their position in the
//! list, so the order of any list of elements is document order.

use vstd::prelude::*;
use crate::text::{equals, strs};

verus! {

/// One element of a page.
#[derive(Clone, Debug)]
pub struct Element {
    /// The number of ancestors in the tree.
    pub depth: usize,
    pub tag: String,
    pub id: Option<String>,
    /// The names in the `class` attribute.
    pub classes: Vec<String>,
    /// The attributes, as name and value, in the order written.
    pub attributes: Vec<(String, String)>,
    /// The link target, where the element has one.
    pub href: Option<String>,
    /// The text a reader sees in the element, where it has any.
    pub text: Option<String>,
    /// The text of the element's children as written, put together, where
    /// there is any.
    pub raw_text: Option<String>,
}

/// What the queries read of an element.
pub struct ElementView {
    pub depth: nat,
    pub tag: Seq<char>,
    pub id: Option<Seq<char>>,
    pub classes: Seq<Seq<char>>,
    pub attributes: Seq<(Seq<char>, Seq<char>)>,
    pub href: Option<Seq<char>>,
    pub text: Option<Seq<char>>,
    pub raw_text: Option<Seq<char>>,
}

/// The characters of an optional string.
pub open spec fn chars_of(text: Option<String>) -> Option<Seq<char>> {
    match text {
        Some(s) => Some(s@),
        None => None,
    }
}

/// The characters of each string of a list.
pub open spec fn names_of(list: Seq<String>) -> Seq<Seq<char>> {
    Seq::new(list.len(), |i: int| list[i]@)
}

/// The characters of each pair of a list.
pub open spec fn pairs_of(list: Seq<(String, String)>) -> Seq<(Seq<char>, Seq<char>)> {
    Seq::new(list.len(), |i: int| (list[i].0@, list[i].1@))
}

impl View for Element {
    type V = ElementView;

    open spec fn view(&self) -> ElementView {
        ElementView {
            depth: self.depth as nat,
            tag: self.tag@,
            id: chars_of(self.id),
            classes: names_of(self.classes@),
            attributes: pairs_of(self.attributes@),
            href: chars_of(self.href),
            text: chars_of(self.text),
            raw_text: chars_of(self.raw_text),
        }
    }
}

/// The value of the first attribute called `name`.
pub open spec fn attribute_value(attributes: Seq<(Seq<char>, Seq<char>)>, name: Seq<char>) -> Option<
    Seq<char>,
>
    decreases attributes.len(),
{
    if attributes.len() == 0 {
        None
    } else if attributes[0].0 == name {
        Some(attributes[0].1)
    } else {
        attribute_value(attributes.drop_first(), name)
    }
}

impl Element {
    /// The value of the first attribute called `name`.
    pub fn attribute(&self, name: &str) -> (r: Option<&String>)
        ensures
            match r {
                Some(value) => attribute_value(self@.attributes, name@) == Some(value@),
                None => attribute_value(self@.attributes, name@) is None,
            },
    {
        let ghost all = self@.attributes;
        let mut i: usize = 0;
        assert(all.skip(0) =~= all);
        while i < self.attributes.len()
            invariant
                i <= self.attributes.len(),
                all == self@.attributes,
                attribute_value(all, name@) == attribute_value(all.skip(i as int), name@),
            decreases self.attributes.len() - i,
        {
            let ghost rest = all.skip(i as int);
            assert(rest[0] == all[i as int]);
            assert(rest.drop_first() =~= all.skip(i + 1));
            if equals(self.attributes[i].0.as_str(), name) {
                return Some(&self.attributes[i].1);
            }
            i += 1;
        }
        None
    }
}

/// A parsed page: its elements in document order.
#[derive(Clone, Debug)]
pub struct Document {
    pub elements: Vec<Element>,
}

impl View for Document {
    type V = Seq<ElementView>;

    open spec fn view(&self) -> Seq<ElementView> {
        Seq::new(self.elements@.len(), |i: int| self.elements@[i]@)
    }
}

/// A set of class names to look for: an element matches when it carries one
/// of them, or, where `exact` is set, when it carries all of them and no
/// other.
#[derive(Clone, Debug)]
pub struct ClassNames {
    pub names: Vec<&'static str>,
    pub exact: bool,
}

pub struct ClassNamesView {
    pub names: Seq<Seq<char>>,
    pub exact: bool,
}

impl View for ClassNames {
    type V = ClassNamesView;

    open spec fn view(&self) -> ClassNamesView {
        ClassNamesView {
            names: strs(self.names@),
            exact: self.exact,
        }
    }
}

impl ClassNamesView {
    /// Whether an element with these classes matches.
    pub open spec fn matches(self, classes: Seq<Seq<char>>) -> bool {
        if self.exact {
            &&& forall|j: int| 0 <= j < self.names.len() ==> classes.contains(#[trigger] self.names[j])
            &&& forall|i: int| 0 <= i < classes.len() ==> self.names.contains(#[trigger] classes[i])
        } else {
            exists|j: int| 0 <= j < self.names.len() && classes.contains(#[trigger] self.names[j])
        }
    }
}

/// Elements that carry at least one of the names.
pub open spec fn any_of(names: Seq<Seq<char>>) -> ClassNamesView {
    ClassNamesView { names, exact: false }
}

/// Elements that carry exactly the names.
pub open spec fn exactly(names: Seq<Seq<char>>) -> ClassNamesView {
    ClassNamesView { names, exact: true }
}

fn carries(classes: &Vec<String>, name: &str) -> (r: bool)
    ensures
        r == names_of(classes@).contains(name@),
{
    let mut i: usize = 0;
    while i < classes.len()
        invariant
            i <= classes.len(),
            forall|k: int| 0 <= k < i ==> names_of(classes@)[k] != name@,
        decreases classes.len() - i,
    {
        if equals(classes[i].as_str(), name) {
            assert(names_of(classes@)[i as int] == name@);
            return true;
        }
        i += 1;
    }
    false
}

fn lists(names: &Vec<&'static str>, class: &str) -> (r: bool)
    ensures
        r == strs(names@).contains(class@),
{
    let ghost views = strs(names@);
    let mut i: usize = 0;
    while i < names.len()
        invariant
            i <= names.len(),
            views == strs(names@),
            forall|k: int| 0 <= k < i ==> views[k] != class@,
        decreases names.len() - i,
    {
        if equals(names[i], class) {
            assert(views[i as int] == class@);
            return true;
        }
        i += 1;
    }
    false
}

impl ClassNames {
    /// Elements that carry at least one of the names.
    pub fn any(names: Vec<&'static str>) -> (r: ClassNames)
        ensures
            r@ == any_of(strs(names@)),
    {
        ClassNames { names, exact: false }
    }

    /// Elements that carry exactly the names.
    pub fn exact(names: Vec<&'static str>) -> (r: ClassNames)
        ensures
            r@ == exactly(strs(names@)),
    {
        ClassNames { names, exact: true }
    }

    /// Elements that carry the name.
    pub fn one(name: &'static str) -> (r: ClassNames)
        ensures
            r@ == any_of(seq![name@]),
    {
        let names = vec![name];
        assert(strs(names@) =~= seq![name@]);
        ClassNames::any(names)
    }

    /// Whether an element with these classes matches.
    pub fn matches(&self, classes: &Vec<String>) -> (r: bool)
        ensures
            r == self@.matches(names_of(classes@)),
    {
        let ghost names = self@.names;
        let ghost carried = names_of(classes@);
        if self.exact {
            let mut j: usize = 0;
            while j < self.names.len()
                invariant
                    self.exact,
                    j <= self.names.len(),
                    names == self@.names,
                    carried == names_of(classes@),
                    forall|k: int| 0 <= k < j ==> carried.contains(#[trigger] names[k]),
                decreases self.names.len() - j,
            {
                if !carries(classes, self.names[j]) {
                    assert(!carried.contains(names[j as int]));
                    return false;
                }
                j += 1;
            }
            let mut i: usize = 0;
            while i < classes.len()
                invariant
                    self.exact,
                    i <= classes.len(),
                    names == self@.names,
                    carried == names_of(classes@),
                    forall|k: int| 0 <= k < names.len() ==> carried.contains(#[trigger] names[k]),
                    forall|k: int| 0 <= k < i ==> names.contains(#[trigger] carried[k]),
                decreases classes.len() - i,
            {
                if !lists(&self.names, classes[i].as_str()) {
                    assert(!names.contains(carried[i as int]));
                    return false;
                }
                i += 1;
            }
            true
        } else {
            let mut j: usize = 0;
            while j < self.names.len()
                invariant
                    !self.exact,
                    j <= self.names.len(),
                    names == self@.names,
                    carried == names_of(classes@),
                    forall|k: int| 0 <= k < j ==> !carried.contains(#[trigger] names[k]),
                decreases self.names.len() - j,
            {
                if carries(classes, self.names[j]) {
                    assert(carried.contains(names[j as int]));
                    return true;
                }
                j += 1;
            }
            false
        }
    }
}

/// What an element must show to be selected.
#[derive(Clone, Copy, Debug)]
pub enum Selector<'a> {
    /// Every element.
    Any,
    /// The element's `id` is this one.
    Id(&'a str),
    /// The element's tag is this one.
    Tag(&'a str),
    /// The element's classes match.
    Classes(&'a ClassNames),
}

pub enum SelectorView {
    Any,
    Id(Seq<char>),
    Tag(Seq<char>),
    Classes(ClassNamesView),
}

impl<'a> View for Selector<'a> {
    type V = SelectorView;

    open spec fn view(&self) -> SelectorView {
        match self {
            Selector::Any => SelectorView::Any,
            Selector::Id(id) => SelectorView::Id(id@),
            Selector::Tag(tag) => SelectorView::Tag(tag@),
            Selector::Classes(names) => SelectorView::Classes(names@),
        }
    }
}

impl SelectorView {
    /// Whether the selector admits the element.
    pub open spec fn admits(self, element: ElementView) -> bool {
        match self {
            SelectorView::Any => true,
            SelectorView::Id(id) => element.id == Some(id),
            SelectorView::Tag(tag) => element.tag == tag,
            SelectorView::Classes(names) => names.matches(element.classes),
        }
    }
}

impl<'a> Selector<'a> {
    /// Whether the selector admits the element.
    pub fn admits(&self, element: &Element) -> (r: bool)
        ensures
            r == self@.admits(element@),
    {
        match self {
            Selector::Any => true,
            Selector::Id(id) => match &element.id {
                Some(own) => equals(own.as_str(), id),
                None => false,
            },
            Selector::Tag(tag) => equals(element.tag.as_str(), tag),
            Selector::Classes(names) => names.matches(&element.classes),
        }
    }
}

/// Where a query looks.
#[derive(Clone, Copy, Debug)]
pub enum Scope {
    /// Among all elements of the document.
    Document,
    /// Among the elements below the given one, at any depth.
    Within(usize),
    /// Among the children of the given element.
    ChildrenOf(usize),
}

/// A run of elements, and the depth of the parent where only children count.
pub struct Span {
    pub lo: int,
    pub hi: int,
    pub parent_depth: Option<nat>,
}

/// The first position at or after `k` of an element that lies no deeper than
/// `depth`, or the length of the document when there is none.
pub open spec fn subtree_end_from(doc: Seq<ElementView>, depth: nat, k: int) -> int
    decreases doc.len() - k,
{
    if k < 0 || k >= doc.len() {
        doc.len() as int
    } else if doc[k].depth <= depth {
        k
    } else {
        subtree_end_from(doc, depth, k + 1)
    }
}

/// The position just behind the subtree of element `i`.
pub open spec fn subtree_end(doc: Seq<ElementView>, i: int) -> int {
    if 0 <= i < doc.len() {
        subtree_end_from(doc, doc[i].depth, i + 1)
    } else {
        doc.len() as int
    }
}

/// The run of elements that a scope covers. An element that the document
/// does not hold has nothing below it.
pub open spec fn span_of(doc: Seq<ElementView>, scope: Scope) -> Span {
    match scope {
        Scope::Document => Span { lo: 0, hi: doc.len() as int, parent_depth: None },
        Scope::Within(i) => if i < doc.len() {
            Span { lo: i + 1, hi: subtree_end(doc, i as int), parent_depth: None }
        } else {
            Span { lo: doc.len() as int, hi: doc.len() as int, parent_depth: None }
        },
        Scope::ChildrenOf(i) => if i < doc.len() {
            Span {
                lo: i + 1,
                hi: subtree_end(doc, i as int),
                parent_depth: Some(doc[i as int].depth),
            }
        } else {
            Span { lo: doc.len() as int, hi: doc.len() as int, parent_depth: None }
        },
    }
}

/// Whether element `j` lies in the span and the selector admits it.
pub open spec fn hit(doc: Seq<ElementView>, span: Span, selector: SelectorView, j: int) -> bool {
    &&& 0 <= j < doc.len()
    &&& span.lo <= j < span.hi
    &&& (span.parent_depth matches Some(d) ==> doc[j].depth == d + 1)
    &&& selector.admits(doc[j])
}

/// The first hit at or after `from`.
pub open spec fn first_hit(doc: Seq<ElementView>, span: Span, selector: SelectorView, from: int)
    -> Option<usize>
    decreases span.hi - from,
{
    if from >= span.hi {
        None
    } else if hit(doc, span, selector, from) {
        Some(from as usize)
    } else {
        first_hit(doc, span, selector, from + 1)
    }
}

/// The hits before `upto`, in document order.
pub open spec fn hits(doc: Seq<ElementView>, span: Span, selector: SelectorView, upto: int) -> Seq<
    usize,
>
    decreases upto - span.lo,
{
    if upto <= span.lo {
        Seq::empty()
    } else if hit(doc, span, selector, upto - 1) {
        hits(doc, span, selector, upto - 1).push((upto - 1) as usize)
    } else {
        hits(doc, span, selector, upto - 1)
    }
}

/// The first element in the scope that the selector admits.
pub open spec fn first(doc: Seq<ElementView>, scope: Scope, selector: SelectorView) -> Option<
    usize,
> {
    first_hit(doc, span_of(doc, scope), selector, span_of(doc, scope).lo)
}

/// The elements in the scope that the selector admits, in document order.
pub open spec fn every(doc: Seq<ElementView>, scope: Scope, selector: SelectorView) -> Seq<usize> {
    hits(doc, span_of(doc, scope), selector, span_of(doc, scope).hi)
}

/// The hits before `upto` are hits indeed, none is missing, and they stand
/// in document order.
pub proof fn lemma_hits(doc: Seq<ElementView>, span: Span, selector: SelectorView, upto: int)
    requires
        doc.len() <= usize::MAX,
    ensures
        forall|k: int|
            0 <= k < hits(doc, span, selector, upto).len() ==> {
                &&& (#[trigger] hits(doc, span, selector, upto)[k]) < upto
                &&& hit(doc, span, selector, hits(doc, span, selector, upto)[k] as int)
            },
        forall|k: int, l: int|
            0 <= k < l < hits(doc, span, selector, upto).len() ==> hits(doc, span, selector, upto)[k]
                < hits(doc, span, selector, upto)[l],
        forall|j: int|
            j < upto && hit(doc, span, selector, j) ==> hits(doc, span, selector, upto).contains(
                j as usize,
            ),
    decreases upto - span.lo,
{
    let found = hits(doc, span, selector, upto);
    if upto > span.lo {
        let before = hits(doc, span, selector, upto - 1);
        lemma_hits(doc, span, selector, upto - 1);
        assert forall|j: int| j < upto && hit(doc, span, selector, j) implies found.contains(
            j as usize,
        ) by {
            if j == upto - 1 {
                assert(found[found.len() - 1] == j as usize);
            } else {
                let k = choose|k: int| 0 <= k < before.len() && before[k] == j as usize;
                assert(found[k] == j as usize);
            }
        }
    }
}

/// What a query lists are the elements in its scope that the selector
/// admits, all of them, in document order.
pub proof fn lemma_every_in_document_order(doc: Seq<ElementView>, scope: Scope, selector: SelectorView)
    requires
        doc.len() <= usize::MAX,
    ensures
        forall|k: int|
            0 <= k < every(doc, scope, selector).len() ==> hit(
                doc,
                span_of(doc, scope),
                selector,
                (#[trigger] every(doc, scope, selector)[k]) as int,
            ),
        forall|k: int, l: int|
            0 <= k < l < every(doc, scope, selector).len() ==> every(doc, scope, selector)[k]
                < every(doc, scope, selector)[l],
        forall|j: int|
            hit(doc, span_of(doc, scope), selector, j) ==> every(doc, scope, selector).contains(
                j as usize,
            ),
{
    lemma_hits(doc, span_of(doc, scope), selector, span_of(doc, scope).hi);
}

/// The first element that a query finds is a hit, and nothing before it is.
pub proof fn lemma_first_hit(doc: Seq<ElementView>, span: Span, selector: SelectorView, from: int)
    requires
        doc.len() <= usize::MAX,
    ensures
        match first_hit(doc, span, selector, from) {
            Some(j) => from <= j && hit(doc, span, selector, j as int) && forall|k: int|
                from <= k < j ==> !hit(doc, span, selector, k),
            None => forall|k: int| from <= k ==> !hit(doc, span, selector, k),
        },
    decreases span.hi - from,
{
    if from < span.hi && !hit(doc, span, selector, from) {
        lemma_first_hit(doc, span, selector, from + 1);
    }
}

/// What `first` finds is the first of what `every` lists, and it finds
/// nothing exactly where `every` lists nothing.
pub proof fn lemma_first_is_first_of_every(doc: Seq<ElementView>, scope: Scope, selector: SelectorView)
    requires
        doc.len() <= usize::MAX,
    ensures
        match first(doc, scope, selector) {
            Some(j) => every(doc, scope, selector).len() > 0 && every(doc, scope, selector)[0] == j,
            None => every(doc, scope, selector).len() == 0,
        },
{
    let span = span_of(doc, scope);
    let all = every(doc, scope, selector);
    lemma_first_hit(doc, span, selector, span.lo);
    lemma_every_in_document_order(doc, scope, selector);
    match first(doc, scope, selector) {
        Some(j) => {
            assert(all.contains(j));
            let k = choose|k: int| 0 <= k < all.len() && all[k] == j;
            assert(hit(doc, span, selector, all[0] as int));
            if k > 0 {
                assert(all[0] < all[k]);
            }
        },
        None => {
            if all.len() > 0 {
                assert(hit(doc, span, selector, all[0] as int));
            }
        },
    }
}

/// The subtree of an element ends behind it and within the document.
pub proof fn lemma_subtree_end_from(doc: Seq<ElementView>, depth: nat, k: int)
    requires
        0 <= k <= doc.len(),
    ensures
        k <= subtree_end_from(doc, depth, k) <= doc.len(),
        forall|j: int| k <= j < subtree_end_from(doc, depth, k) ==> (#[trigger] doc[j]).depth > depth,
        subtree_end_from(doc, depth, k) < doc.len() ==> doc[subtree_end_from(doc, depth, k)].depth
            <= depth,
    decreases doc.len() - k,
{
    if k < doc.len() && doc[k].depth > depth {
        lemma_subtree_end_from(doc, depth, k + 1);
    }
}

impl Document {
    /// A document without elements.
    pub fn new() -> (r: Document)
        ensures
            r@ == Seq::<ElementView>::empty(),
    {
        let r = Document { elements: Vec::new() };
        assert(r@ =~= Seq::<ElementView>::empty());
        r
    }

    /// Adds an element behind those that the document holds, and returns its
    /// position.
    pub fn push(&mut self, element: Element) -> (at: usize)
        ensures
            final(self)@ == old(self)@.push(element@),
            at == old(self)@.len(),
    {
        let at = self.elements.len();
        self.elements.push(element);
        assert(self@ =~= old(self)@.push(element@));
        at
    }

    pub fn len(&self) -> (r: usize)
        ensures
            r == self@.len(),
    {
        self.elements.len()
    }

    /// The element at position `i`.
    pub fn get(&self, i: usize) -> (r: Option<&Element>)
        ensures
            match r {
                Some(e) => i < self@.len() && e@ == self@[i as int],
                None => i >= self@.len(),
            },
    {
        if i < self.elements.len() {
            Some(&self.elements[i])
        } else {
            None
        }
    }

    fn end_of(&self, i: usize) -> (r: usize)
        ensures
            r == subtree_end(self@, i as int),
            r <= self@.len(),
    {
        if i >= self.elements.len() {
            return self.elements.len();
        }
        let depth = self.elements[i].depth;
        let mut k: usize = i + 1;
        while k < self.elements.len() && self.elements[k].depth > depth
            invariant
                i < k <= self.elements.len(),
                depth == self@[i as int].depth,
                subtree_end(self@, i as int) == subtree_end_from(self@, depth as nat, k as int),
            decreases self.elements.len() - k,
        {
            assert(self@[k as int].depth > depth);
            k += 1;
        }
        proof {
            if k < self.elements.len() {
                assert(self@[k as int].depth <= depth);
            }
        }
        k
    }

    fn bounds(&self, scope: Scope) -> (r: (usize, usize, Option<usize>))
        ensures
            r.0 <= r.1 <= self@.len(),
            span_of(self@, scope).lo == r.0,
            span_of(self@, scope).hi == r.1,
            span_of(self@, scope).parent_depth == match r.2 {
                Some(d) => Some(d as nat),
                None => None,
            },
    {
        let len = self.elements.len();
        match scope {
            Scope::Document => (0, len, None),
            Scope::Within(i) => if i < len {
                proof {
                    lemma_subtree_end_from(self@, self@[i as int].depth, i + 1);
                }
                (i + 1, self.end_of(i), None)
            } else {
                (len, len, None)
            },
            Scope::ChildrenOf(i) => if i < len {
                proof {
                    lemma_subtree_end_from(self@, self@[i as int].depth, i + 1);
                }
                (i + 1, self.end_of(i), Some(self.elements[i].depth))
            } else {
                (len, len, None)
            },
        }
    }

    fn hit_at(&self, parent_depth: Option<usize>, selector: &Selector, j: usize) -> (r: bool)
        requires
            j < self@.len(),
        ensures
            r == {
                &&& (parent_depth matches Some(d) ==> self@[j as int].depth == d + 1)
                &&& selector@.admits(self@[j as int])
            },
    {
        let element = &self.elements[j];
        let level = match parent_depth {
            Some(d) => element.depth > d && element.depth - 1 == d,
            None => true,
        };
        level && selector.admits(element)
    }

    /// The first element in the scope that the selector admits.
    pub fn first(&self, scope: Scope, selector: &Selector) -> (r: Option<usize>)
        ensures
            r == first(self@, scope, selector@),
            r matches Some(j) ==> j < self@.len(),
    {
        let (lo, hi, parent_depth) = self.bounds(scope);
        let ghost span = span_of(self@, scope);
        let mut j: usize = lo;
        while j < hi
            invariant
                lo <= j <= hi <= self@.len(),
                span == span_of(self@, scope),
                span.lo == lo,
                span.hi == hi,
                span.parent_depth == match parent_depth {
                    Some(d) => Some(d as nat),
                    None => None,
                },
                first(self@, scope, selector@) == first_hit(self@, span, selector@, j as int),
            decreases hi - j,
        {
            if self.hit_at(parent_depth, selector, j) {
                return Some(j);
            }
            j += 1;
        }
        None
    }

    /// The elements in the scope that the selector admits, in document order.
    pub fn every(&self, scope: Scope, selector: &Selector) -> (r: Vec<usize>)
        ensures
            r@ == every(self@, scope, selector@),
            forall|k: int| 0 <= k < r@.len() ==> r@[k] < self@.len(),
    {
        let (lo, hi, parent_depth) = self.bounds(scope);
        let ghost span = span_of(self@, scope);
        let mut found: Vec<usize> = Vec::new();
        let mut j: usize = lo;
        while j < hi
            invariant
                lo <= j <= hi <= self@.len(),
                span == span_of(self@, scope),
                span.lo == lo,
                span.hi == hi,
                span.parent_depth == match parent_depth {
                    Some(d) => Some(d as nat),
                    None => None,
                },
                found@ == hits(self@, span, selector@, j as int),
                forall|k: int| 0 <= k < found@.len() ==> found@[k] < self@.len(),
            decreases hi - j,
        {
            if self.hit_at(parent_depth, selector, j) {
                found.push(j);
            }
            j += 1;
        }
        found
    }
}

} // verus!
