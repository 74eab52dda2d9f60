use crate::data::{
    AttributeName, AttributeValue, EventListenerWrapper, EventName, KorvinClosure, TagName, Value,
};
use crate::dom_executor::slots::into_slots;
use crate::mutation::element::builder_mutation::marker::create::ElementCreateMutation;
use crate::mutation::element::builder_mutation::marker::finish::ElementFinishMutation;
use crate::mutation::element::builder_mutation::modify::add_event_listener::ElementAddEventListenerMutation;
use crate::mutation::element::builder_mutation::modify::set_attribute::ElementSetAttributeMutation;
use crate::mutation::element::builder_mutation::modify::set_input_value::ElementSetInputValueMutation;
use crate::mutation::element::builder_mutation::modify::set_text::ElementSetTextMutation;
use crate::mutation::element::builder_mutation::modify::{ElementBuilderModifyMutation, ModifyView};
use std::collections::hash_map::DefaultHasher;
use std::hash::{Hash, Hasher};

pub mod value_cache;
use vstd::prelude::*;

verus! {

/// What one node is to be: its key, its kind, and what is to be written to it.
#[derive(Debug)]
pub struct ElementRecipe {
    pub key: Option<u64>,
    pub create: ElementCreateMutation,
    pub modify: Vec<ElementBuilderModifyMutation>,
    pub finish: ElementFinishMutation,
}

/// What a tree of nodes is to be.
#[derive(Debug)]
pub struct ElementWithChildrenRecipe {
    pub element: ElementRecipe,
    pub children: Vec<Self>,
}

/// A recipe as plain values.
pub struct RecipeView {
    pub key: Option<u64>,
    pub kind: Seq<char>,
    pub modify: Seq<ModifyView>,
    pub children: Seq<RecipeView>,
}

/// The views of a list of modify mutations.
pub open spec fn modify_views(mutations: Seq<ElementBuilderModifyMutation>) -> Seq<ModifyView> {
    mutations.map_values(|mutation: ElementBuilderModifyMutation| mutation@)
}

impl View for ElementWithChildrenRecipe {
    type V = RecipeView;

    open spec fn view(&self) -> RecipeView
        decreases self,
    {
        RecipeView {
            key: self.element.key,
            kind: self.element.create@,
            modify: modify_views(self.element.modify@),
            children: recipe_views(self.children@),
        }
    }
}

/// The views of a list of recipes, in their order.
pub open spec fn recipe_views(recipes: Seq<ElementWithChildrenRecipe>) -> Seq<RecipeView>
    decreases recipes,
{
    if recipes.len() == 0 {
        Seq::empty()
    } else {
        recipe_views(recipes.drop_last()).push(recipes.last()@)
    }
}

/// The views of a list of recipes are as many as the recipes, and each is the
/// view of the recipe at its place.
pub proof fn lemma_recipe_views(recipes: Seq<ElementWithChildrenRecipe>)
    ensures
        recipe_views(recipes).len() == recipes.len(),
        forall|i: int| 0 <= i < recipes.len() ==> #[trigger] recipe_views(recipes)[i] == recipes[i]@,
    decreases recipes.len(),
{
    reveal_with_fuel(recipe_views, 2);
    if recipes.len() > 0 {
        lemma_recipe_views(recipes.drop_last());
        assert(recipe_views(recipes) == recipe_views(recipes.drop_last()).push(recipes.last()@));
    } else {
        assert(recipe_views(recipes) == Seq::<RecipeView>::empty());
    }
}

impl ElementWithChildrenRecipe {
    /// The view of a recipe holds the recipe's own key, kind and mutations, and
    /// the views of its children in their order.
    pub proof fn lemma_view(&self)
        ensures
            self@.key == self.element.key,
            self@.kind == self.element.create@,
            self@.modify == modify_views(self.element.modify@),
            self@.children == recipe_views(self.children@),
            self@.children.len() == self.children@.len(),
            forall|i: int|
                0 <= i < self.children@.len() ==> #[trigger] self@.children[i]
                    == self.children@[i]@,
    {
        lemma_recipe_views(self.children@);
    }
}

impl RecipeView {
    /// What tells the children of one node apart: the key and the kind.
    pub open spec fn child_key(self) -> (Option<u64>, Seq<char>) {
        (self.key, self.kind)
    }
}

/// Feeds `t` to the hasher, by the `Hash` implementation of its type
/// (`std::hash::Hash::hash`). Nothing is claimed about the state of the hasher
/// afterwards: it is whatever that implementation writes.
#[verifier::external_body]
fn feed<T: Hash>(t: &T, state: &mut DefaultHasher) {
    t.hash(state);
}

/// A number that stands for `t`: what the default hasher of the standard
/// library makes of it.
pub fn calculate_hash<T: Hash>(t: &T) -> u64 {
    let mut s = DefaultHasher::new();
    feed(t, &mut s);
    s.finish()
}

/// Text that a builder takes: anything that can be turned into a `Value`.
pub trait IntoJsValue: Sized {
    /// The characters of the value that this turns into.
    spec fn text(&self) -> Seq<char>;

    fn into_value(self) -> (value: Value)
        ensures
            value@ == self.text(),
    ;
}

impl<'a> IntoJsValue for &'a str {
    open spec fn text(&self) -> Seq<char> {
        self@
    }

    fn into_value(self) -> (value: Value) {
        Value::new(self)
    }
}

impl IntoJsValue for Value {
    open spec fn text(&self) -> Seq<char> {
        self@
    }

    fn into_value(self) -> (value: Value) {
        self
    }
}

/// A tree in the making: what is said of a node so far, and of its children.
pub struct ElementBuilder {
    key: Option<u64>,
    kind: TagName,
    attributes: Vec<(AttributeName, AttributeValue)>,
    text: Option<AttributeValue>,
    input_value: Option<AttributeValue>,
    children: Vec<ElementBuilder>,
    event_listeners: Vec<ElementAddEventListenerMutation>,
}

/// A builder as plain values.
pub struct BuilderView {
    pub key: Option<u64>,
    pub kind: Seq<char>,
    pub attributes: Seq<(Seq<char>, Seq<char>)>,
    pub text: Option<Seq<char>>,
    pub input_value: Option<Seq<char>>,
    pub children: Seq<BuilderView>,
    pub event_listeners: Seq<(Seq<char>, u64)>,
}

/// The mutation that sets one attribute.
pub open spec fn attribute_mutation(attribute: (Seq<char>, Seq<char>)) -> ModifyView {
    ModifyView::SetAttribute { attribute: attribute.0, value: Some(attribute.1) }
}

/// The mutation that registers one listener.
pub open spec fn listener_mutation(listener: (Seq<char>, u64)) -> ModifyView {
    ModifyView::AddEventListener { name: listener.0, callback: listener.1 }
}

/// The mutation that sets the text, where there is one.
pub open spec fn text_mutations(text: Option<Seq<char>>) -> Seq<ModifyView> {
    match text {
        Some(text) => seq![ModifyView::SetText { text: Some(text) }],
        None => Seq::empty(),
    }
}

/// The mutation that sets the form value, where there is one.
pub open spec fn input_mutations(input_value: Option<Seq<char>>) -> Seq<ModifyView> {
    match input_value {
        Some(input) => seq![ModifyView::SetInputValue { input }],
        None => Seq::empty(),
    }
}

impl BuilderView {
    /// The modify mutations that the builder stands for: the attributes in the
    /// order of their names, then the text, then the form value, then the
    /// listeners in the order in which they were given.
    pub open spec fn modify(self) -> Seq<ModifyView> {
        self.attributes.map_values(|attribute: (Seq<char>, Seq<char>)| attribute_mutation(attribute))
            + text_mutations(self.text) + input_mutations(self.input_value)
            + self.event_listeners.map_values(
            |listener: (Seq<char>, u64)| listener_mutation(listener),
        )
    }

    /// The recipe that the builder stands for.
    pub open spec fn recipe(self) -> RecipeView
        decreases self, 0int,
    {
        RecipeView {
            key: self.key,
            kind: self.kind,
            modify: self.modify(),
            children: Self::recipes(self.children, self.children.len() as int),
        }
    }

    /// The recipes that the first `until` of `builders` stand for.
    pub open spec fn recipes(builders: Seq<BuilderView>, until: int) -> Seq<RecipeView>
        decreases builders, until,
    {
        if until <= 0 || until > builders.len() {
            Seq::empty()
        } else {
            Self::recipes(builders, until - 1).push(builders[until - 1].recipe())
        }
    }

    /// Whether the attributes stand in the order of their names, so that none
    /// is named twice, here and in every child.
    pub open spec fn well_formed(self) -> bool
        decreases self,
    {
        &&& in_name_order(self.attributes)
        &&& forall|i: int| 0 <= i < self.children.len() ==> (#[trigger] self.children[i]).well_formed()
    }
}

/// The bytes that a text is written in.
pub open spec fn bytes_of(text: Seq<char>) -> Seq<u8> {
    vstd::utf8::encode_utf8(text)
}

/// Whether `one` sorts before `other`: at the first place where the two
/// differ `one` has the smaller byte, or `one` ends there and `other` goes on.
pub open spec fn sorts_before(one: Seq<u8>, other: Seq<u8>) -> bool
    decreases one.len(),
{
    if other.len() == 0 {
        false
    } else if one.len() == 0 {
        true
    } else if one[0] != other[0] {
        one[0] < other[0]
    } else {
        sorts_before(one.skip(1), other.skip(1))
    }
}

/// Of two texts, at most one sorts before the other, and none before itself.
pub proof fn lemma_sorts_one_way(one: Seq<u8>, other: Seq<u8>)
    ensures
        !(sorts_before(one, other) && sorts_before(other, one)),
    decreases one.len(),
{
    if one.len() > 0 && other.len() > 0 && one[0] == other[0] {
        lemma_sorts_one_way(one.skip(1), other.skip(1));
    }
}

/// What sorts before a text sorts before everything that the text sorts
/// before.
pub proof fn lemma_sorts_in_a_row(one: Seq<u8>, middle: Seq<u8>, other: Seq<u8>)
    requires
        sorts_before(one, middle),
        sorts_before(middle, other),
    ensures
        sorts_before(one, other),
    decreases one.len(),
{
    if one.len() > 0 && one[0] == middle[0] && middle[0] == other[0] {
        lemma_sorts_in_a_row(one.skip(1), middle.skip(1), other.skip(1));
    }
}

/// How one text stands to another in the order of texts.
#[derive(Debug, Clone, Copy, PartialEq, Eq, Structural)]
pub enum Standing {
    Before,
    Same,
    After,
}

/// How `one` stands to `other` in the order of texts, which goes by their
/// bytes.
pub fn standing(one: &str, other: &str) -> (r: Standing)
    ensures
        match r {
            Standing::Before => sorts_before(bytes_of(one@), bytes_of(other@)),
            Standing::Same => bytes_of(one@) == bytes_of(other@),
            Standing::After => sorts_before(bytes_of(other@), bytes_of(one@)),
        },
{
    let a = one.as_bytes();
    let b = other.as_bytes();
    let mut i: usize = 0;
    proof {
        assert(a@.skip(0) =~= a@);
        assert(b@.skip(0) =~= b@);
        assert(a@.take(0) =~= b@.take(0));
    }
    while i < a.len() && i < b.len()
        invariant
            i <= a@.len(),
            i <= b@.len(),
            a@ == bytes_of(one@),
            b@ == bytes_of(other@),
            a@.take(i as int) == b@.take(i as int),
            sorts_before(a@, b@) == sorts_before(a@.skip(i as int), b@.skip(i as int)),
            sorts_before(b@, a@) == sorts_before(b@.skip(i as int), a@.skip(i as int)),
        decreases a@.len() - i,
    {
        if a[i] < b[i] {
            return Standing::Before;
        }
        if a[i] > b[i] {
            return Standing::After;
        }
        proof {
            assert(a@.skip(i as int).skip(1) =~= a@.skip(i as int + 1));
            assert(b@.skip(i as int).skip(1) =~= b@.skip(i as int + 1));
            assert(a@.take(i as int + 1) =~= a@.take(i as int).push(a@[i as int]));
            assert(b@.take(i as int + 1) =~= b@.take(i as int).push(b@[i as int]));
        }
        i = i + 1;
    }
    if a.len() < b.len() {
        Standing::Before
    } else if a.len() > b.len() {
        Standing::After
    } else {
        proof {
            assert(a@ =~= a@.take(i as int));
            assert(b@ =~= b@.take(i as int));
        }
        Standing::Same
    }
}

/// Whether the attributes stand in the order of their names.
pub open spec fn in_name_order(attributes: Seq<(Seq<char>, Seq<char>)>) -> bool {
    forall|i: int, j: int|
        0 <= i < j < attributes.len() ==> sorts_before(
            bytes_of(attributes[i].0),
            bytes_of(attributes[j].0),
        )
}

/// Whether `at` is where an attribute named `name` belongs: behind every
/// attribute whose name sorts before `name`, and before every other.
pub open spec fn is_landing(attributes: Seq<(Seq<char>, Seq<char>)>, name: Seq<char>, at: int) -> bool {
    &&& 0 <= at <= attributes.len()
    &&& forall|i: int|
        0 <= i < at ==> sorts_before(bytes_of((#[trigger] attributes[i]).0), bytes_of(name))
    &&& at < attributes.len() ==> !sorts_before(bytes_of(attributes[at].0), bytes_of(name))
}

/// The attributes once `name` is set to `value`: where an attribute of that
/// name stands, it gets the new value; otherwise the new attribute is put
/// where its name belongs.
pub open spec fn placed(
    attributes: Seq<(Seq<char>, Seq<char>)>,
    name: Seq<char>,
    value: Seq<char>,
) -> Seq<(Seq<char>, Seq<char>)> {
    let at = choose|at: int| is_landing(attributes, name, at);
    if at < attributes.len() && bytes_of(attributes[at].0) == bytes_of(name) {
        attributes.update(at, (name, value))
    } else {
        attributes.insert(at, (name, value))
    }
}

/// Putting a new attribute where its name belongs keeps the attributes in the
/// order of their names.
proof fn lemma_new_attribute_is_in_order(
    attributes: Seq<(Seq<char>, Seq<char>)>,
    name: Seq<char>,
    value: Seq<char>,
    at: int,
    i: int,
    j: int,
)
    requires
        in_name_order(attributes),
        is_landing(attributes, name, at),
        at < attributes.len() ==> sorts_before(bytes_of(name), bytes_of(attributes[at].0)),
        0 <= i < j < attributes.len() + 1,
    ensures
        sorts_before(
            bytes_of(attributes.insert(at, (name, value))[i].0),
            bytes_of(attributes.insert(at, (name, value))[j].0),
        ),
{
    let after = attributes.insert(at, (name, value));
    if j < at {
        assert(after[i] == attributes[i] && after[j] == attributes[j]);
    } else if j == at {
        assert(after[i] == attributes[i]);
    } else if i < at {
        assert(after[i] == attributes[i] && after[j] == attributes[j - 1]);
    } else if i == at {
        assert(after[j] == attributes[j - 1]);
        if j - 1 > at {
            lemma_sorts_in_a_row(
                bytes_of(name),
                bytes_of(attributes[at].0),
                bytes_of(attributes[j - 1].0),
            );
        }
    } else {
        assert(after[i] == attributes[i - 1] && after[j] == attributes[j - 1]);
    }
}

/// There is one place only where an attribute belongs.
pub proof fn lemma_one_landing(
    attributes: Seq<(Seq<char>, Seq<char>)>,
    name: Seq<char>,
    one: int,
    other: int,
)
    requires
        is_landing(attributes, name, one),
        is_landing(attributes, name, other),
    ensures
        one == other,
{
    if one < other {
        assert(sorts_before(bytes_of(attributes[one].0), bytes_of(name)));
    } else if other < one {
        assert(sorts_before(bytes_of(attributes[other].0), bytes_of(name)));
    }
}

/// The attributes as plain values.
pub open spec fn attribute_views(attributes: Seq<(AttributeName, AttributeValue)>) -> Seq<
    (Seq<char>, Seq<char>),
> {
    attributes.map_values(|attribute: (AttributeName, AttributeValue)| (attribute.0@, attribute.1@))
}

/// The listeners as plain values.
pub open spec fn listener_views(listeners: Seq<ElementAddEventListenerMutation>) -> Seq<
    (Seq<char>, u64),
> {
    listeners.map_values(|listener: ElementAddEventListenerMutation| listener@)
}

/// The views of a list of builders, in their order.
pub closed spec fn builder_views(builders: Seq<ElementBuilder>) -> Seq<BuilderView>
    decreases builders,
{
    if builders.len() == 0 {
        Seq::empty()
    } else {
        builder_views(builders.drop_last()).push(builders.last()@)
    }
}

impl View for ElementBuilder {
    type V = BuilderView;

    closed spec fn view(&self) -> BuilderView
        decreases self,
    {
        BuilderView {
            key: self.key,
            kind: self.kind@,
            attributes: attribute_views(self.attributes@),
            text: crate::data::attribute_value::text_of(self.text),
            input_value: crate::data::attribute_value::text_of(self.input_value),
            children: builder_views(self.children@),
            event_listeners: listener_views(self.event_listeners@),
        }
    }
}

/// The views of a list of builders are as many as the builders, and each is
/// the view of the builder at its place.
proof fn lemma_builder_views(builders: Seq<ElementBuilder>)
    ensures
        builder_views(builders).len() == builders.len(),
        forall|i: int|
            0 <= i < builders.len() ==> #[trigger] builder_views(builders)[i] == builders[i]@,
    decreases builders.len(),
{
    reveal_with_fuel(builder_views, 2);
    if builders.len() > 0 {
        lemma_builder_views(builders.drop_last());
        assert(builder_views(builders) == builder_views(builders.drop_last()).push(
            builders.last()@,
        ));
    } else {
        assert(builder_views(builders) == Seq::<BuilderView>::empty());
    }
}

/// The recipes of the first builders do not depend on the builders that follow
/// them.
proof fn lemma_recipes_of_start(builders: Seq<BuilderView>, more: Seq<BuilderView>, until: int)
    requires
        0 <= until <= builders.len() <= more.len(),
        forall|i: int| 0 <= i < builders.len() ==> builders[i] == more[i],
    ensures
        BuilderView::recipes(builders, until) == BuilderView::recipes(more, until),
    decreases until,
{
    reveal_with_fuel(BuilderView::recipes, 2);
    if until > 0 {
        lemma_recipes_of_start(builders, more, until - 1);
    }
}

/// What can be given as a child: a builder, or the kind of a node of which
/// nothing else is said.
pub trait IntoChild: Sized {
    /// The builder that this stands for, as plain values.
    spec fn builder_view(&self) -> BuilderView;

    fn into_child(self) -> (builder: ElementBuilder)
        ensures
            builder@ == self.builder_view(),
    ;
}

/// What every builder, and everything that stands for one, can be told.
pub trait AsElementBuilder: Sized {
    fn into_builder(self) -> ElementBuilder;

    fn text<V: IntoJsValue>(self, text: V) -> ElementBuilder;

    fn input_value<V: IntoJsValue>(self, value: V) -> ElementBuilder;

    fn event<K: Hash, V: IntoJsValue>(self, key: K, name: V, callback: u64) -> ElementBuilder;

    fn child<C: IntoChild>(self, child: C) -> ElementBuilder;

    fn key<K: Hash>(self, key: K) -> ElementBuilder;

    fn children(self, children: Vec<ElementBuilder>) -> ElementBuilder;

    fn attribute<N: IntoJsValue, V: IntoJsValue>(self, attribute: N, value: V) -> ElementBuilder;

    fn build(self) -> ElementWithChildrenRecipe;
}

impl ElementBuilder {
    /// A builder for a node of kind `kind`, with nothing said of it yet.
    pub fn builder<V: IntoJsValue>(kind: V) -> (made: Self)
        ensures
            made@ == bare(kind.text()),
            made@.well_formed(),
    {
        let made = ElementBuilder {
            key: None,
            kind: TagName::from(kind.into_value()),
            attributes: Vec::new(),
            text: None,
            input_value: None,
            children: Vec::new(),
            event_listeners: Vec::new(),
        };
        proof {
            lemma_builder_views(made.children@);
            assert(made@.attributes =~= Seq::empty());
            assert(made@.children =~= Seq::empty());
            assert(made@.event_listeners =~= Seq::empty());
        }
        made
    }

    /// Registers the callback `closure` for the event `name`.
    pub fn listener<V: IntoJsValue>(self, name: V, closure: KorvinClosure) -> (told: Self)
        ensures
            told@ == (BuilderView {
                event_listeners: self@.event_listeners.push((name.text(), closure.hash)),
                ..self@
            }),
    {
        let mut told = self;
        let name = EventName::from(name.into_value().as_ref());
        told.event_listeners.push(
            ElementAddEventListenerMutation { listener: EventListenerWrapper { name, closure } },
        );
        proof {
            assert(told@.event_listeners =~= self@.event_listeners.push((name@, closure.hash)));
        }
        told
    }

    /// Gives the node the key `hash`, which tells it apart from its siblings
    /// of the same kind.
    pub fn key_with_hash(self, hash: u64) -> (told: Self)
        ensures
            told@ == (BuilderView { key: Some(hash), ..self@ }),
    {
        let mut told = self;
        told.key = Some(hash);
        told
    }

    /// Where the attribute named `name` belongs, and whether an attribute of
    /// that name stands there.
    fn landing_of(&self, name: &AttributeName) -> (found: (usize, bool))
        ensures
            is_landing(self@.attributes, name@, found.0 as int),
            found.0 <= self.attributes@.len(),
            found.1 <==> found.0 < self@.attributes.len() && bytes_of(
                self@.attributes[found.0 as int].0,
            ) == bytes_of(name@),
            !found.1 && found.0 < self@.attributes.len() ==> sorts_before(
                bytes_of(name@),
                bytes_of(self@.attributes[found.0 as int].0),
            ),
    {
        let mut i: usize = 0;
        while i < self.attributes.len()
            invariant
                i <= self.attributes@.len(),
                forall|j: int|
                    0 <= j < i ==> sorts_before(
                        bytes_of((#[trigger] self@.attributes[j]).0),
                        bytes_of(name@),
                    ),
            decreases self.attributes@.len() - i,
        {
            match standing(self.attributes[i].0.as_ref(), name.as_ref()) {
                Standing::Before => {},
                Standing::Same => {
                    proof {
                        lemma_sorts_one_way(bytes_of(name@), bytes_of(name@));
                    }
                    return (i, true);
                },
                Standing::After => {
                    proof {
                        lemma_sorts_one_way(
                            bytes_of(self@.attributes[i as int].0),
                            bytes_of(name@),
                        );
                    }
                    return (i, false);
                },
            }
            i = i + 1;
        }
        (i, false)
    }
}

/// A builder for a node of kind `kind`, with nothing said of it yet.
pub open spec fn bare(kind: Seq<char>) -> BuilderView {
    BuilderView {
        key: None,
        kind,
        attributes: Seq::empty(),
        text: None,
        input_value: None,
        children: Seq::empty(),
        event_listeners: Seq::empty(),
    }
}

impl IntoChild for ElementBuilder {
    open spec fn builder_view(&self) -> BuilderView {
        self@
    }

    fn into_child(self) -> (builder: ElementBuilder) {
        self
    }
}

impl<'a> IntoChild for &'a str {
    open spec fn builder_view(&self) -> BuilderView {
        bare(self@)
    }

    fn into_child(self) -> (builder: ElementBuilder) {
        ElementBuilder::builder(self)
    }
}

impl AsElementBuilder for ElementBuilder {
    fn into_builder(self) -> (same: ElementBuilder)
        ensures
            same == self,
    {
        self
    }

    /// Sets the text of the node; a text that was given before is replaced.
    fn text<V: IntoJsValue>(self, text: V) -> (told: ElementBuilder)
        ensures
            told@ == (BuilderView { text: Some(text.text()), ..self@ }),
    {
        let mut told = self;
        told.text = Some(AttributeValue::from(text.into_value()));
        told
    }

    /// Sets the form value of the node; a value that was given before is
    /// replaced.
    fn input_value<V: IntoJsValue>(self, value: V) -> (told: ElementBuilder)
        ensures
            told@ == (BuilderView { input_value: Some(value.text()), ..self@ }),
    {
        let mut told = self;
        told.input_value = Some(AttributeValue::from(value.into_value()));
        told
    }

    /// Registers, for the event `name`, the callback that the live document
    /// knows by the handle `callback`. The engine knows the callback by the
    /// hash of `key`: as long as the key stays the same the callback counts as
    /// the same, and is registered once only.
    fn event<K: Hash, V: IntoJsValue>(self, key: K, name: V, callback: u64) -> (told:
        ElementBuilder)
        ensures
            told@.event_listeners.len() == self@.event_listeners.len() + 1,
            told@.event_listeners.last().0 == name.text(),
            told@ == (BuilderView { event_listeners: told@.event_listeners, ..self@ }),
            told@.event_listeners.drop_last() == self@.event_listeners,
    {
        let hash = calculate_hash(&key);
        let told = self.listener(name, KorvinClosure { hash, closure: callback });
        proof {
            assert(told@.event_listeners.drop_last() =~= self@.event_listeners);
        }
        told
    }

    /// Adds `child` as the last child.
    fn child<C: IntoChild>(self, child: C) -> (told: ElementBuilder)
        ensures
            told@ == (BuilderView {
                children: self@.children.push(child.builder_view()),
                ..self@
            }),
    {
        let mut told = self;
        let child = child.into_child();
        told.children.push(child);
        proof {
            lemma_builder_views(self.children@);
            lemma_builder_views(told.children@);
            assert(told@.children =~= self@.children.push(child@));
        }
        told
    }

    /// Gives the node a key, the hash of `key`.
    fn key<K: Hash>(self, key: K) -> (told: ElementBuilder)
        ensures
            told@.key is Some,
            told@ == (BuilderView { key: told@.key, ..self@ }),
    {
        let hash = calculate_hash(&key);
        self.key_with_hash(hash)
    }

    /// Adds `children` behind the children that are there, in their order.
    fn children(self, children: Vec<ElementBuilder>) -> (told: ElementBuilder)
        ensures
            told@ == (BuilderView { children: self@.children + builder_views(children@), ..self@ }),
    {
        let mut told = self;
        let ghost added = builder_views(children@);
        let mut children = children;
        proof {
            lemma_builder_views(self.children@);
            lemma_builder_views(children@);
        }
        told.children.append(&mut children);
        proof {
            lemma_builder_views(told.children@);
            assert(told@.children =~= self@.children + added);
        }
        told
    }

    /// Sets the attribute `attribute` to `value`. The attributes are kept in
    /// the order of their names: an attribute that was given before keeps its
    /// place and gets the new value, a new one is put where its name belongs.
    fn attribute<N: IntoJsValue, V: IntoJsValue>(self, attribute: N, value: V) -> (told:
        ElementBuilder)
        ensures
            self@.well_formed() ==> told@.well_formed(),
            told@ == (BuilderView { attributes: told@.attributes, ..self@ }),
            told@.attributes == placed(self@.attributes, attribute.text(), value.text()),
    {
        let name = AttributeName::from(attribute.into_value());
        let value = AttributeValue::from(value.into_value());
        let (at, same) = self.landing_of(&name);
        let mut told = self;
        let ghost stated = self@.attributes;
        proof {
            lemma_builder_views(self.children@);
            lemma_one_landing(
                stated,
                name@,
                at as int,
                choose|at: int| is_landing(stated, name@, at),
            );
        }
        if same {
            told.attributes[at] = (name, value);
            proof {
                lemma_builder_views(told.children@);
                assert(told@.attributes =~= stated.update(at as int, (name@, value@)));
                if self@.well_formed() {
                    assert forall|i: int, j: int|
                        0 <= i < j < told@.attributes.len() implies sorts_before(
                        bytes_of(told@.attributes[i].0),
                        bytes_of(told@.attributes[j].0),
                    ) by {
                        assert(sorts_before(bytes_of(stated[i].0), bytes_of(stated[j].0)));
                    }
                }
            }
        } else {
            told.attributes.insert(at, (name, value));
            proof {
                lemma_builder_views(told.children@);
                assert(told@.attributes =~= stated.insert(at as int, (name@, value@)));
                if self@.well_formed() {
                    assert forall|i: int, j: int|
                        0 <= i < j < told@.attributes.len() implies sorts_before(
                        bytes_of(told@.attributes[i].0),
                        bytes_of(told@.attributes[j].0),
                    ) by {
                        lemma_new_attribute_is_in_order(stated, name@, value@, at as int, i, j);
                    }
                }
            }
        }
        told
    }

    /// The recipe that the builder stands for.
    fn build(self) -> (recipe: ElementWithChildrenRecipe)
        ensures
            recipe@ == self@.recipe(),
        decreases self,
    {
        let ghost view = self@;
        let ElementBuilder { key, kind, attributes, text, input_value, children, event_listeners } =
            self;
        proof {
            lemma_builder_views(children@);
        }
        let mut modify: Vec<ElementBuilderModifyMutation> = Vec::new();
        let mut a: usize = 0;
        while a < attributes.len()
            invariant
                a <= attributes@.len(),
                modify_views(modify@) =~= attribute_views(attributes@).take(a as int).map_values(
                    |attribute: (Seq<char>, Seq<char>)| attribute_mutation(attribute),
                ),
            decreases attributes@.len() - a,
        {
            let ghost written = modify@;
            let attribute = attributes[a].0.clone();
            let value = attributes[a].1.clone();
            modify.push(
                ElementBuilderModifyMutation::SetAttribute(
                    ElementSetAttributeMutation { attribute, value: Some(value) },
                ),
            );
            proof {
                let stated = attribute_views(attributes@);
                assert(modify_views(modify@) =~= modify_views(written).push(
                    attribute_mutation(stated[a as int]),
                ));
                assert(stated.take(a as int + 1) =~= stated.take(a as int).push(stated[a as int]));
            }
            a = a + 1;
        }
        proof {
            assert(attribute_views(attributes@).take(a as int) =~= attribute_views(attributes@));
        }
        match text {
            Some(value) => {
                modify.push(
                    ElementBuilderModifyMutation::SetText(
                        ElementSetTextMutation { value: Some(value) },
                    ),
                );
            },
            None => {},
        }
        match input_value {
            Some(value) => {
                modify.push(
                    ElementBuilderModifyMutation::SetInputValue(
                        ElementSetInputValueMutation { value },
                    ),
                );
            },
            None => {},
        }
        let ghost written = modify_views(modify@);
        assert(written =~= view.attributes.map_values(
            |attribute: (Seq<char>, Seq<char>)| attribute_mutation(attribute),
        ) + text_mutations(view.text) + input_mutations(view.input_value));
        let mut l: usize = 0;
        while l < event_listeners.len()
            invariant
                l <= event_listeners@.len(),
                modify_views(modify@) =~= written + listener_views(event_listeners@).take(
                    l as int,
                ).map_values(|listener: (Seq<char>, u64)| listener_mutation(listener)),
            decreases event_listeners@.len() - l,
        {
            let ghost before = modify@;
            modify.push(ElementBuilderModifyMutation::AddEventListener(event_listeners[l].clone()));
            proof {
                let given = listener_views(event_listeners@);
                assert(modify_views(modify@) =~= modify_views(before).push(
                    listener_mutation(given[l as int]),
                ));
                assert(given.take(l as int + 1) =~= given.take(l as int).push(given[l as int]));
            }
            l = l + 1;
        }
        proof {
            assert(listener_views(event_listeners@).take(l as int) =~= listener_views(
                event_listeners@,
            ));
        }
        let ghost builders = children@;
        let mut slots = into_slots(children);
        let mut built: Vec<ElementWithChildrenRecipe> = Vec::new();
        let mut c: usize = 0;
        while c < slots.len()
            invariant
                c <= slots@.len(),
                slots@.len() == builders.len(),
                builders == self.children@,
                view == self@,
                view.children.len() == builders.len(),
                forall|i: int| 0 <= i < builders.len() ==> #[trigger] view.children[i] == builders[i]@,
                forall|i: int| c <= i < slots@.len() ==> #[trigger] slots@[i] == Some(builders[i]),
                built@.len() == c,
                recipe_views(built@) =~= BuilderView::recipes(view.children, c as int),
            decreases slots@.len() - c,
        {
            let ghost so_far = built@;
            let taken = slots[c].take();
            let child = taken.unwrap();
            let recipe = child.build();
            built.push(recipe);
            proof {
                lemma_recipe_views(so_far);
                lemma_recipe_views(built@);
                assert(recipe_views(built@) =~= recipe_views(so_far).push(recipe@));
            }
            c = c + 1;
        }
        let recipe = ElementWithChildrenRecipe {
            element: ElementRecipe {
                key,
                create: ElementCreateMutation { kind },
                modify,
                finish: ElementFinishMutation {  },
            },
            children: built,
        };
        proof {
            recipe.lemma_view();
            assert(recipe@.modify =~= view.modify());
            assert(recipe@.children =~= BuilderView::recipes(
                view.children,
                view.children.len() as int,
            ));
        }
        recipe
    }
}

impl<'a> AsElementBuilder for &'a str {
    /// A builder for a node of the kind that this text names.
    fn into_builder(self) -> (builder: ElementBuilder)
        ensures
            builder@ == bare(self@),
    {
        ElementBuilder::builder(self)
    }

    fn text<V: IntoJsValue>(self, text: V) -> (told: ElementBuilder)
        ensures
            told@ == (BuilderView { text: Some(text.text()), ..bare(self@) }),
    {
        ElementBuilder::builder(self).text(text)
    }

    fn input_value<V: IntoJsValue>(self, value: V) -> (told: ElementBuilder)
        ensures
            told@ == (BuilderView { input_value: Some(value.text()), ..bare(self@) }),
    {
        ElementBuilder::builder(self).input_value(value)
    }

    fn event<K: Hash, V: IntoJsValue>(self, key: K, name: V, callback: u64) -> (told:
        ElementBuilder)
        ensures
            told@.event_listeners.len() == 1,
            told@.event_listeners[0].0 == name.text(),
            told@ == (BuilderView { event_listeners: told@.event_listeners, ..bare(self@) }),
    {
        ElementBuilder::builder(self).event(key, name, callback)
    }

    fn child<C: IntoChild>(self, child: C) -> (told: ElementBuilder)
        ensures
            told@ == (BuilderView { children: seq![child.builder_view()], ..bare(self@) }),
    {
        let told = ElementBuilder::builder(self).child(child);
        proof {
            assert(Seq::<BuilderView>::empty().push(child.builder_view()) =~= seq![
                child.builder_view(),
            ]);
        }
        told
    }

    fn key<K: Hash>(self, key: K) -> (told: ElementBuilder)
        ensures
            told@.key is Some,
            told@ == (BuilderView { key: told@.key, ..bare(self@) }),
    {
        ElementBuilder::builder(self).key(key)
    }

    fn children(self, children: Vec<ElementBuilder>) -> (told: ElementBuilder)
        ensures
            told@ == (BuilderView { children: builder_views(children@), ..bare(self@) }),
    {
        let told = ElementBuilder::builder(self).children(children);
        proof {
            assert(Seq::<BuilderView>::empty() + builder_views(children@) =~= builder_views(
                children@,
            ));
        }
        told
    }

    fn attribute<N: IntoJsValue, V: IntoJsValue>(self, attribute: N, value: V) -> (told:
        ElementBuilder)
        ensures
            told@ == (BuilderView {
                attributes: seq![(attribute.text(), value.text())],
                ..bare(self@)
            }),
            told@.well_formed(),
    {
        let told = ElementBuilder::builder(self).attribute(attribute, value);
        proof {
            let none = Seq::<(Seq<char>, Seq<char>)>::empty();
            assert(is_landing(none, attribute.text(), 0));
            lemma_one_landing(
                none,
                attribute.text(),
                0,
                choose|at: int| is_landing(none, attribute.text(), at),
            );
            assert(none.insert(0, (attribute.text(), value.text())) =~= seq![
                (attribute.text(), value.text()),
            ]);
        }
        told
    }

    fn build(self) -> (recipe: ElementWithChildrenRecipe)
        ensures
            recipe@ == bare(self@).recipe(),
    {
        ElementBuilder::builder(self).build()
    }
}

} // verus!
