//! Wands and their spells, and how a wand is read from a record.
//!
//! A record is a document whose root holds an `AbilityComponent` with the
//! wand's own attributes and, below it, a `gun_config` and a
//! `gunaction_config`. Each child of the root whose `tags` hold
//! `card_action` is one spell.

use crate::error::RecordError;
use crate::markup::{Child, ChildView, Node, NodeView};
use crate::numeric::{
    bool_value, digits_value, i32_value, is_float_literal, parse_bool, parse_i32, FloatLiteral,
};
use crate::text::{contains, contains_seq, lowercased, to_lowercase};
use crate::translation::{placeholder, resolved, Translation};
use crate::xml::{read_document, xml_document};
use vstd::prelude::*;
use vstd::string::*;

verus! {

/// One spell of a wand.
#[derive(Debug, Clone)]
pub struct Spell {
    /// The name shown for the spell.
    pub name: String,
    /// Whether the spell is fixed to the wand and cast with every shot,
    /// rather than drawn from the deck.
    pub always_cast: bool,
}

/// The mathematical model of a [`Spell`].
pub struct SpellView {
    pub name: Seq<char>,
    pub always_cast: bool,
}

impl View for Spell {
    type V = SpellView;

    open spec fn view(&self) -> SpellView {
        SpellView { name: self.name@, always_cast: self.always_cast }
    }
}

impl Spell {
    /// The spell as a line of text: its name.
    pub fn to_text(&self) -> (text: String)
        ensures
            text@ == self@.name,
    {
        self.name.clone()
    }
}

/// A wand. The fields that hold a [`FloatLiteral`] keep the number as the
/// record writes it; the two delays are counted in frames, sixty to the
/// second.
#[derive(Debug)]
pub struct Wand {
    pub name: String,
    pub shuffle: bool,
    pub spells_per_cast: i32,
    pub cast_delay: FloatLiteral,
    pub recharge_time: FloatLiteral,
    pub mana_max: FloatLiteral,
    pub mana_charge_speed: FloatLiteral,
    pub capacity: i32,
    pub spread: FloatLiteral,
    pub speed: FloatLiteral,
    pub tier: i32,
    /// The spells in the order of the record, which is the order of casting.
    pub spells: Vec<Spell>,
}

/// The mathematical model of a [`Wand`].
pub struct WandView {
    pub name: Seq<char>,
    pub shuffle: bool,
    pub spells_per_cast: i32,
    pub cast_delay: Seq<char>,
    pub recharge_time: Seq<char>,
    pub mana_max: Seq<char>,
    pub mana_charge_speed: Seq<char>,
    pub capacity: i32,
    pub spread: Seq<char>,
    pub speed: Seq<char>,
    pub tier: i32,
    pub spells: Seq<SpellView>,
}

/// The models of a list of spells.
pub open spec fn spell_views(spells: Seq<Spell>) -> Seq<SpellView> {
    spells.map_values(|spell: Spell| spell@)
}

impl View for Wand {
    type V = WandView;

    open spec fn view(&self) -> WandView {
        WandView {
            name: self.name@,
            shuffle: self.shuffle,
            spells_per_cast: self.spells_per_cast,
            cast_delay: self.cast_delay@,
            recharge_time: self.recharge_time@,
            mana_max: self.mana_max@,
            mana_charge_speed: self.mana_charge_speed@,
            capacity: self.capacity,
            spread: self.spread@,
            speed: self.speed@,
            tier: self.tier,
            spells: spell_views(self.spells@),
        }
    }
}

impl WandView {
    /// The tier is not negative, and each number kept as a literal is one.
    pub open spec fn wf(self) -> bool {
        &&& self.tier >= 0
        &&& is_float_literal(self.cast_delay)
        &&& is_float_literal(self.recharge_time)
        &&& is_float_literal(self.mana_max)
        &&& is_float_literal(self.mana_charge_speed)
        &&& is_float_literal(self.spread)
        &&& is_float_literal(self.speed)
    }
}

/// A wand together with the name of the file it was found in.
#[derive(Debug)]
pub struct BoneWand {
    pub filename: String,
    pub wand: Wand,
}

/// The mathematical model of a [`BoneWand`].
pub struct BoneWandView {
    pub filename: Seq<char>,
    pub wand: WandView,
}

impl View for BoneWand {
    type V = BoneWandView;

    open spec fn view(&self) -> BoneWandView {
        BoneWandView { filename: self.filename@, wand: self.wand@ }
    }
}

/// The child element `name` of `parent`, where there is a parent.
pub open spec fn below(parent: Option<NodeView>, name: Seq<char>) -> Option<NodeView> {
    match parent {
        Some(node) => node.child(name),
        None => None,
    }
}

/// The attribute `key` of `node`, where there is a node.
pub open spec fn attr(node: Option<NodeView>, key: Seq<char>) -> Option<Seq<char>> {
    match node {
        Some(n) => n.attribute(key),
        None => None,
    }
}

/// The attribute texts that make a wand, as the record writes them.
pub struct Attributes {
    pub ui_name: Seq<char>,
    pub shuffle_deck_when_empty: Seq<char>,
    pub actions_per_round: Seq<char>,
    pub fire_rate_wait: Seq<char>,
    pub reload_time: Seq<char>,
    pub mana_max: Seq<char>,
    pub mana_charge_speed: Seq<char>,
    pub deck_capacity: Seq<char>,
    pub spread_degrees: Seq<char>,
    pub speed_multiplier: Seq<char>,
    /// `0` where the record gives no level.
    pub gun_level: Seq<char>,
}

/// The attribute texts of the record under `root`, or `None` where an
/// element or an attribute that a wand needs is missing. Only the level may
/// be missing: it then counts as `0`.
pub open spec fn attributes_of(root: NodeView) -> Option<Attributes> {
    let ability = root.child("AbilityComponent"@);
    let gun = below(ability, "gun_config"@);
    let action = below(ability, "gunaction_config"@);
    let ui_name = attr(ability, "ui_name"@);
    let shuffle_deck_when_empty = attr(gun, "shuffle_deck_when_empty"@);
    let actions_per_round = attr(gun, "actions_per_round"@);
    let fire_rate_wait = attr(action, "fire_rate_wait"@);
    let reload_time = attr(gun, "reload_time"@);
    let mana_max = attr(ability, "mana_max"@);
    let mana_charge_speed = attr(ability, "mana_charge_speed"@);
    let deck_capacity = attr(gun, "deck_capacity"@);
    let spread_degrees = attr(action, "spread_degrees"@);
    let speed_multiplier = attr(action, "speed_multiplier"@);
    if ui_name is Some && shuffle_deck_when_empty is Some && actions_per_round is Some
        && fire_rate_wait is Some && reload_time is Some && mana_max is Some
        && mana_charge_speed is Some && deck_capacity is Some && spread_degrees is Some
        && speed_multiplier is Some {
        Some(
            Attributes {
                ui_name: ui_name->0,
                shuffle_deck_when_empty: shuffle_deck_when_empty->0,
                actions_per_round: actions_per_round->0,
                fire_rate_wait: fire_rate_wait->0,
                reload_time: reload_time->0,
                mana_max: mana_max->0,
                mana_charge_speed: mana_charge_speed->0,
                deck_capacity: deck_capacity->0,
                spread_degrees: spread_degrees->0,
                speed_multiplier: speed_multiplier->0,
                gun_level: match attr(ability, "gun_level"@) {
                    Some(level) => level,
                    None => "0"@,
                },
            },
        )
    } else {
        None
    }
}

/// The tags of an element; none where it has no `tags` attribute.
pub open spec fn tags_of(node: NodeView) -> Seq<char> {
    match node.attribute("tags"@) {
        Some(tags) => tags,
        None => Seq::empty(),
    }
}

/// Whether a child of the root is a spell: an element whose tags hold
/// `card_action` somewhere.
pub open spec fn is_card(child: ChildView) -> bool {
    child matches ChildView::Element(node) && contains_seq(tags_of(node), "card_action"@)
}

/// The spell that the element `card` describes, or `None` where it lacks
/// the action's identifier or the mark of permanence. The name is the
/// translation of `action_` and the identifier in lower case, or the
/// placeholder where the table has none.
pub open spec fn spell_of(card: NodeView, table: Map<Seq<char>, Seq<char>>) -> Option<SpellView> {
    let action_id = attr(card.child("ItemActionComponent"@), "action_id"@);
    let attached = attr(card.child("ItemComponent"@), "permanently_attached"@);
    if action_id is Some && attached is Some {
        Some(
            SpellView {
                name: resolved(table, "action_"@ + lowercased(action_id->0)),
                always_cast: bool_value(attached->0),
            },
        )
    } else {
        None
    }
}

/// The spells among `children`, in their order, or `None` where one of
/// them cannot be read.
pub open spec fn spells_of(children: Seq<ChildView>, table: Map<Seq<char>, Seq<char>>) -> Option<
    Seq<SpellView>,
>
    decreases children.len(),
{
    if children.len() == 0 {
        Some(Seq::empty())
    } else {
        match spells_of(children.drop_last(), table) {
            None => None,
            Some(before) => match children.last() {
                ChildView::Element(node) if is_card(children.last()) => match spell_of(
                    node,
                    table,
                ) {
                    Some(spell) => Some(before.push(spell)),
                    None => None,
                },
                _ => Some(before),
            },
        }
    }
}

/// Whether each number among the attribute texts is written in the form
/// its field expects: the three counts as decimal integers that fit in 32
/// bits, the level not negative, the other six as floating-point literals.
pub open spec fn numbers_ok(texts: Attributes) -> bool {
    &&& i32_value(texts.actions_per_round) is Some
    &&& i32_value(texts.deck_capacity) is Some
    &&& i32_value(texts.gun_level) matches Some(level) && level >= 0
    &&& is_float_literal(texts.fire_rate_wait)
    &&& is_float_literal(texts.reload_time)
    &&& is_float_literal(texts.mana_max)
    &&& is_float_literal(texts.mana_charge_speed)
    &&& is_float_literal(texts.spread_degrees)
    &&& is_float_literal(texts.speed_multiplier)
}

/// The wand that the attribute texts and the spells make.
pub open spec fn wand_from(texts: Attributes, spells: Seq<SpellView>) -> Result<
    WandView,
    RecordError,
> {
    if numbers_ok(texts) {
        Ok(
            WandView {
                name: texts.ui_name,
                shuffle: bool_value(texts.shuffle_deck_when_empty),
                spells_per_cast: i32_value(texts.actions_per_round)->0,
                cast_delay: texts.fire_rate_wait,
                recharge_time: texts.reload_time,
                mana_max: texts.mana_max,
                mana_charge_speed: texts.mana_charge_speed,
                capacity: i32_value(texts.deck_capacity)->0,
                spread: texts.spread_degrees,
                speed: texts.speed_multiplier,
                tier: i32_value(texts.gun_level)->0,
                spells,
            },
        )
    } else {
        Err(RecordError::InvalidNumericField)
    }
}

/// The wand of the record under `root`. A record that lacks a required
/// element or attribute is malformed; one that has them all, with a number
/// that is not in its form, has an invalid numeric field.
pub open spec fn wand_of(root: NodeView, table: Map<Seq<char>, Seq<char>>) -> Result<
    WandView,
    RecordError,
> {
    match (attributes_of(root), spells_of(root.children, table)) {
        (Some(texts), Some(spells)) => wand_from(texts, spells),
        _ => Err(RecordError::MalformedRecord),
    }
}

/// The wand of the record that a text holds. A text that is no well-formed
/// document is a malformed record.
pub open spec fn wand_of_text(text: Seq<char>, table: Map<Seq<char>, Seq<char>>) -> Result<
    WandView,
    RecordError,
> {
    match xml_document(text) {
        Some(root) => wand_of(root, table),
        None => Err(RecordError::MalformedRecord),
    }
}

/// Whether a record can be read does not depend on the table: a spell
/// that the table does not know is read like any other, under the
/// placeholder as its name.
pub proof fn lemma_translation_never_fails(
    root: NodeView,
    card: NodeView,
    table: Map<Seq<char>, Seq<char>>,
    other: Map<Seq<char>, Seq<char>>,
)
    ensures
        spell_of(card, table) is Some <==> spell_of(card, other) is Some,
        spell_of(card, table) matches Some(spell) ==> {
            let id = "action_"@ + lowercased(
                attr(card.child("ItemActionComponent"@), "action_id"@)->0,
            );
            &&& !table.contains_key(id) ==> spell.name == placeholder()
            &&& table.contains_key(id) ==> spell.name == table[id]
        },
        spells_of(root.children, table) is Some <==> spells_of(root.children, other) is Some,
        wand_of(root, table) is Ok <==> wand_of(root, other) is Ok,
        wand_of(root, table) matches Err(e) ==> wand_of(root, other) == Err::<
            WandView,
            RecordError,
        >(e),
{
    lemma_spells_of_any_table(root.children, table, other);
}

proof fn lemma_spells_of_any_table(
    children: Seq<ChildView>,
    table: Map<Seq<char>, Seq<char>>,
    other: Map<Seq<char>, Seq<char>>,
)
    ensures
        spells_of(children, table) is Some <==> spells_of(children, other) is Some,
    decreases children.len(),
{
    if children.len() > 0 {
        lemma_spells_of_any_table(children.drop_last(), table, other);
    }
}

/// A record that gives no level has a wand of tier 0, and the tier of a
/// wand is never negative.
pub proof fn lemma_tier_default(root: NodeView, table: Map<Seq<char>, Seq<char>>)
    requires
        wand_of(root, table) is Ok,
    ensures
        wand_of(root, table)->Ok_0.tier >= 0,
        wand_of(root, table)->Ok_0.wf(),
        attr(root.child("AbilityComponent"@), "gun_level"@) is None ==> wand_of(
            root,
            table,
        )->Ok_0.tier == 0,
{
    if attr(root.child("AbilityComponent"@), "gun_level"@) is None {
        reveal_strlit("0");
        reveal_with_fuel(digits_value, 2);
    }
}

/// The spells of a wand are the cards among the children of the root, in
/// the order of the record, each read by itself: a spell for each card, and
/// none for any other child.
pub proof fn lemma_spells_follow_cards(children: Seq<ChildView>, table: Map<Seq<char>, Seq<char>>)
    requires
        spells_of(children, table) is Some,
    ensures
        spells_of(children, table)->0 == children.filter(|c: ChildView| is_card(c)).map_values(
            |c: ChildView| spell_of(c->Element_0, table)->0,
        ),
        forall|i: int|
            0 <= i < children.len() && is_card(#[trigger] children[i]) ==> spell_of(
                children[i]->Element_0,
                table,
            ) is Some,
    decreases children.len(),
{
    reveal(Seq::filter);
    let cards = |c: ChildView| is_card(c);
    let read = |c: ChildView| spell_of(c->Element_0, table)->0;
    if children.len() > 0 {
        let front = children.drop_last();
        lemma_spells_follow_cards(front, table);
        assert forall|i: int| 0 <= i < children.len() && is_card(#[trigger] children[i]) implies spell_of(
            children[i]->Element_0,
            table,
        ) is Some by {
            if i < front.len() {
                assert(front[i] == children[i]);
            }
        }
        if is_card(children.last()) {
            assert(children.filter(cards) == front.filter(cards).push(children.last()));
            assert(children.filter(cards).map_values(read) =~= front.filter(cards).map_values(
                read,
            ).push(read(children.last())));
        }
    } else {
        assert(children.filter(cards).map_values(read) =~= Seq::<SpellView>::empty());
    }
}

/// The spells of `spells` whose `always_cast` is `always_cast`, in their
/// order.
pub open spec fn spells_with(spells: Seq<SpellView>, always_cast: bool) -> Seq<SpellView>
    decreases spells.len(),
{
    if spells.len() == 0 {
        Seq::empty()
    } else {
        let before = spells_with(spells.drop_last(), always_cast);
        if spells.last().always_cast == always_cast {
            before.push(spells.last())
        } else {
            before
        }
    }
}

/// Where the spells of a whole list can be read, so can those of each of
/// its prefixes.
proof fn lemma_spells_of_prefix(children: Seq<ChildView>, table: Map<Seq<char>, Seq<char>>, k: int)
    requires
        0 <= k <= children.len(),
        spells_of(children.take(k), table) is None,
    ensures
        spells_of(children, table) is None,
    decreases children.len(),
{
    if k == children.len() {
        assert(children.take(k) =~= children);
    } else {
        assert(children.drop_last().take(k) =~= children.take(k));
        lemma_spells_of_prefix(children.drop_last(), table, k);
    }
}

/// The attribute texts of a record, borrowed from its tree.
struct Texts<'a> {
    ui_name: &'a String,
    shuffle_deck_when_empty: &'a String,
    actions_per_round: &'a String,
    fire_rate_wait: &'a String,
    reload_time: &'a String,
    mana_max: &'a String,
    mana_charge_speed: &'a String,
    deck_capacity: &'a String,
    spread_degrees: &'a String,
    speed_multiplier: &'a String,
    gun_level: Option<&'a String>,
}

impl<'a> View for Texts<'a> {
    type V = Attributes;

    closed spec fn view(&self) -> Attributes {
        Attributes {
            ui_name: self.ui_name@,
            shuffle_deck_when_empty: self.shuffle_deck_when_empty@,
            actions_per_round: self.actions_per_round@,
            fire_rate_wait: self.fire_rate_wait@,
            reload_time: self.reload_time@,
            mana_max: self.mana_max@,
            mana_charge_speed: self.mana_charge_speed@,
            deck_capacity: self.deck_capacity@,
            spread_degrees: self.spread_degrees@,
            speed_multiplier: self.speed_multiplier@,
            gun_level: match self.gun_level {
                Some(level) => level@,
                None => "0"@,
            },
        }
    }
}

/// The view of what a lookup in the tree gave.
spec fn node_view(node: Option<&Node>) -> Option<NodeView> {
    match node {
        Some(n) => Some(n@),
        None => None,
    }
}

/// The view of what a lookup of an attribute gave.
spec fn text_view(text: Option<&String>) -> Option<Seq<char>> {
    match text {
        Some(t) => Some(t@),
        None => None,
    }
}

fn child_below<'a>(parent: Option<&'a Node>, name: &str) -> (child: Option<&'a Node>)
    ensures
        node_view(child) == below(node_view(parent), name@),
{
    match parent {
        Some(node) => node.get_child(name),
        None => None,
    }
}

fn attribute_of<'a>(node: Option<&'a Node>, key: &str) -> (text: Option<&'a String>)
    ensures
        text_view(text) == attr(node_view(node), key@),
{
    match node {
        Some(n) => n.attribute(key),
        None => None,
    }
}

fn read_attributes<'a>(root: &'a Node) -> (texts: Option<Texts<'a>>)
    ensures
        match texts {
            Some(t) => attributes_of(root@) == Some(t@),
            None => attributes_of(root@) is None,
        },
{
    let ability = root.get_child("AbilityComponent");
    let gun = child_below(ability, "gun_config");
    let action = child_below(ability, "gunaction_config");
    let ui_name = attribute_of(ability, "ui_name")?;
    let shuffle_deck_when_empty = attribute_of(gun, "shuffle_deck_when_empty")?;
    let actions_per_round = attribute_of(gun, "actions_per_round")?;
    let fire_rate_wait = attribute_of(action, "fire_rate_wait")?;
    let reload_time = attribute_of(gun, "reload_time")?;
    let mana_max = attribute_of(ability, "mana_max")?;
    let mana_charge_speed = attribute_of(ability, "mana_charge_speed")?;
    let deck_capacity = attribute_of(gun, "deck_capacity")?;
    let spread_degrees = attribute_of(action, "spread_degrees")?;
    let speed_multiplier = attribute_of(action, "speed_multiplier")?;
    let gun_level = attribute_of(ability, "gun_level");
    Some(
        Texts {
            ui_name,
            shuffle_deck_when_empty,
            actions_per_round,
            fire_rate_wait,
            reload_time,
            mana_max,
            mana_charge_speed,
            deck_capacity,
            spread_degrees,
            speed_multiplier,
            gun_level,
        },
    )
}

/// Whether a child of the root is a spell.
fn child_is_card(node: &Node) -> (card: bool)
    ensures
        card == is_card(ChildView::Element(node@)),
{
    match node.attribute("tags") {
        Some(tags) => contains(tags.as_str(), "card_action"),
        None => {
            proof {
                reveal_strlit("card_action");
                assert forall|at: int| !crate::text::occurs_at(
                    Seq::<char>::empty(),
                    "card_action"@,
                    at,
                ) by {}
            }
            false
        },
    }
}

fn read_spell(card: &Node, translation: &Translation) -> (spell: Option<Spell>)
    ensures
        match spell {
            Some(s) => spell_of(card@, translation@) == Some(s@),
            None => spell_of(card@, translation@) is None,
        },
{
    let action_id = attribute_of(card.get_child("ItemActionComponent"), "action_id")?;
    let attached = attribute_of(card.get_child("ItemComponent"), "permanently_attached")?;
    let lower = to_lowercase(action_id.as_str());
    let key = String::from_str("action_").concat(lower.as_str());
    let name = translation.resolve(key.as_str());
    Some(Spell { name, always_cast: parse_bool(attached.as_str()) })
}

fn read_spells(root: &Node, translation: &Translation) -> (spells: Option<Vec<Spell>>)
    ensures
        match spells {
            Some(list) => spells_of(root@.children, translation@) == Some(spell_views(list@)),
            None => spells_of(root@.children, translation@) is None,
        },
{
    let mut spells: Vec<Spell> = Vec::new();
    let n = root.children.len();
    let ghost all = root@.children;
    let mut i: usize = 0;
    while i < n
        invariant
            i <= n,
            n == root.children@.len(),
            all == root@.children,
            spells_of(all.take(i as int), translation@) == Some(spell_views(spells@)),
        decreases n - i,
    {
        proof {
            assert(all.take(i + 1).drop_last() =~= all.take(i as int));
        }
        match &root.children[i] {
            Child::Element(node) => {
                if child_is_card(node) {
                    match read_spell(node, translation) {
                        Some(spell) => {
                            spells.push(spell);
                        },
                        None => {
                            proof {
                                lemma_spells_of_prefix(all, translation@, i + 1);
                            }
                            return None;
                        },
                    }
                }
            },
            _ => {},
        }
        i += 1;
    }
    proof {
        assert(all.take(n as int) =~= all);
    }
    Some(spells)
}

fn build(texts: &Texts, spells: Vec<Spell>) -> (wand: Result<Wand, RecordError>)
    ensures
        match wand {
            Ok(w) => wand_from(texts@, spell_views(spells@)) == Ok::<WandView, RecordError>(w@),
            Err(e) => wand_from(texts@, spell_views(spells@)) == Err::<WandView, RecordError>(e),
        },
{
    let spells_per_cast = parse_i32(texts.actions_per_round.as_str())?;
    let capacity = parse_i32(texts.deck_capacity.as_str())?;
    let tier = match texts.gun_level {
        Some(level) => parse_i32(level.as_str())?,
        None => parse_i32("0")?,
    };
    if tier < 0 {
        return Err(RecordError::InvalidNumericField);
    }
    let cast_delay = literal(texts.fire_rate_wait)?;
    let recharge_time = literal(texts.reload_time)?;
    let mana_max = literal(texts.mana_max)?;
    let mana_charge_speed = literal(texts.mana_charge_speed)?;
    let spread = literal(texts.spread_degrees)?;
    let speed = literal(texts.speed_multiplier)?;
    Ok(
        Wand {
            name: texts.ui_name.clone(),
            shuffle: parse_bool(texts.shuffle_deck_when_empty.as_str()),
            spells_per_cast,
            cast_delay,
            recharge_time,
            mana_max,
            mana_charge_speed,
            capacity,
            spread,
            speed,
            tier,
            spells,
        },
    )
}

fn literal(text: &String) -> (number: Result<FloatLiteral, RecordError>)
    ensures
        match number {
            Ok(l) => is_float_literal(text@) && l@ == text@,
            Err(e) => !is_float_literal(text@) && e == RecordError::InvalidNumericField,
        },
{
    match FloatLiteral::parse(text.as_str()) {
        Some(l) => Ok(l),
        None => Err(RecordError::InvalidNumericField),
    }
}

impl Wand {
    /// Reads the wand of the record under `element`, with the names of its
    /// spells taken from `translation`.
    pub fn load_from(element: &Node, translation: &Translation) -> (wand: Result<
        Wand,
        RecordError,
    >)
        ensures
            match wand {
                Ok(w) => wand_of(element@, translation@) == Ok::<WandView, RecordError>(w@)
                    && w@.wf(),
                Err(e) => wand_of(element@, translation@) == Err::<WandView, RecordError>(e),
            },
    {
        let texts = match read_attributes(element) {
            Some(t) => t,
            None => { return Err(RecordError::MalformedRecord); },
        };
        let spells = match read_spells(element, translation) {
            Some(s) => s,
            None => { return Err(RecordError::MalformedRecord); },
        };
        build(&texts, spells)
    }
}

impl BoneWand {
    /// Reads the wand of the record that `raw_markup` holds, found in the
    /// file `filename`.
    pub fn load_from(filename: &str, raw_markup: &str, translation: &Translation) -> (bone: Result<
        BoneWand,
        RecordError,
    >)
        ensures
            match bone {
                Ok(b) => b.filename@ == filename@ && b.wand@.wf() && wand_of_text(
                    raw_markup@,
                    translation@,
                ) == Ok::<WandView, RecordError>(b.wand@),
                Err(e) => wand_of_text(raw_markup@, translation@) == Err::<WandView, RecordError>(
                    e,
                ),
            },
    {
        let root = match read_document(raw_markup) {
            Ok(node) => node,
            Err(e) => { return Err(e); },
        };
        match Wand::load_from(&root, translation) {
            Ok(wand) => Ok(BoneWand { filename: filename.to_owned(), wand }),
            Err(e) => Err(e),
        }
    }
}

/// Reads the wand of each record in turn; a file is a name and the text of
/// the record it holds. The first record that cannot be read ends the
/// loading with its error, and no wand is returned.
pub fn load_wands(files: &Vec<(String, String)>, translation: &Translation) -> (wands: Result<
    Vec<BoneWand>,
    RecordError,
>)
    ensures
        match wands {
            Ok(list) => {
                &&& list@.len() == files@.len()
                &&& forall|i: int|
                    0 <= i < files@.len() ==> {
                        &&& (#[trigger] list@[i]).filename@ == files@[i].0@
                        &&& list@[i].wand@.wf()
                        &&& wand_of_text(files@[i].1@, translation@) == Ok::<
                            WandView,
                            RecordError,
                        >(list@[i].wand@)
                    }
            },
            Err(e) => exists|i: int|
                {
                    &&& 0 <= i < files@.len()
                    &&& wand_of_text(#[trigger] files@[i].1@, translation@) == Err::<
                        WandView,
                        RecordError,
                    >(e)
                    &&& forall|j: int|
                        0 <= j < i ==> wand_of_text(#[trigger] files@[j].1@, translation@) is Ok
                },
        },
{
    let mut list: Vec<BoneWand> = Vec::new();
    let n = files.len();
    let mut i: usize = 0;
    while i < n
        invariant
            i <= n,
            n == files@.len(),
            list@.len() == i,
            forall|j: int|
                0 <= j < i ==> {
                    &&& (#[trigger] list@[j]).filename@ == files@[j].0@
                    &&& list@[j].wand@.wf()
                    &&& wand_of_text(files@[j].1@, translation@) == Ok::<WandView, RecordError>(
                        list@[j].wand@,
                    )
                },
        decreases n - i,
    {
        let file = &files[i];
        match BoneWand::load_from(file.0.as_str(), file.1.as_str(), translation) {
            Ok(bone) => {
                list.push(bone);
            },
            Err(e) => {
                proof {
                    assert(wand_of_text(files@[i as int].1@, translation@) == Err::<
                        WandView,
                        RecordError,
                    >(e));
                    assert forall|j: int| 0 <= j < i implies wand_of_text(
                        #[trigger] files@[j].1@,
                        translation@,
                    ) is Ok by {
                        assert(list@[j].wand@.wf());
                    }
                }
                return Err(e);
            },
        }
        i += 1;
    }
    Ok(list)
}

impl WandView {
    /// The spells that are cast with every shot, in their order.
    pub open spec fn always_cast_spells(self) -> Seq<SpellView> {
        spells_with(self.spells, true)
    }

    /// The spells that are drawn from the deck, in their order.
    pub open spec fn drawn_spells(self) -> Seq<SpellView> {
        spells_with(self.spells, false)
    }
}

/// The two groups of a list of spells part it: each spell of a group bears
/// the group's mark and comes from the list, each spell of the list stands
/// in the group of its mark, and the two groups together hold each spell as
/// often as the list does. So no spell is in both and none is left out.
pub proof fn lemma_spells_partition(spells: Seq<SpellView>)
    ensures
        forall|flag: bool, i: int|
            0 <= i < spells_with(spells, flag).len() ==> (#[trigger] spells_with(
                spells,
                flag,
            )[i]).always_cast == flag && spells.contains(spells_with(spells, flag)[i]),
        forall|i: int|
            0 <= i < spells.len() ==> spells_with(spells, (#[trigger] spells[i]).always_cast).contains(
                spells[i],
            ),
        spells_with(spells, true).len() + spells_with(spells, false).len() == spells.len(),
        spells_with(spells, true).to_multiset().add(spells_with(spells, false).to_multiset())
            =~= spells.to_multiset(),
    decreases spells.len(),
{
    broadcast use vstd::seq_lib::group_to_multiset_ensures;

    if spells.len() == 0 {
        assert(spells_with(spells, true).to_multiset().add(
            spells_with(spells, false).to_multiset(),
        ) =~= spells.to_multiset());
    } else {
        let front = spells.drop_last();
        let last = spells.last();
        lemma_spells_partition(front);
        assert(spells =~= front.push(last));
        assert forall|flag: bool, i: int| 0 <= i < spells_with(spells, flag).len() implies (
        #[trigger] spells_with(spells, flag)[i]).always_cast == flag && spells.contains(
            spells_with(spells, flag)[i],
        ) by {
            let before = spells_with(front, flag);
            if i < before.len() {
                let k = choose|k: int| 0 <= k < front.len() && front[k] == before[i];
                assert(spells[k] == before[i]);
            } else {
                assert(spells[spells.len() - 1] == last);
            }
        }
        assert forall|i: int| 0 <= i < spells.len() implies spells_with(
            spells,
            (#[trigger] spells[i]).always_cast,
        ).contains(spells[i]) by {
            let flag = spells[i].always_cast;
            let group = spells_with(spells, flag);
            let before = spells_with(front, flag);
            if i < front.len() {
                let k = choose|k: int| 0 <= k < before.len() && before[k] == front[i];
                assert(group[k] == spells[i]);
            } else {
                assert(group[group.len() - 1] == spells[i]);
            }
        }
    }
}

/// A spell with the same name and mark.
fn copy_of(spell: &Spell) -> (copy: Spell)
    ensures
        copy@ == spell@,
{
    Spell { name: spell.name.clone(), always_cast: spell.always_cast }
}

impl Wand {
    /// The spells whose `always_cast` is `always_cast`, in their order.
    fn spells_where(&self, always_cast: bool) -> (group: Vec<Spell>)
        ensures
            spell_views(group@) == spells_with(self@.spells, always_cast),
    {
        let mut group: Vec<Spell> = Vec::new();
        let ghost all = self@.spells;
        let n = self.spells.len();
        let mut i: usize = 0;
        while i < n
            invariant
                i <= n,
                n == self.spells@.len(),
                all == self@.spells,
                spell_views(group@) == spells_with(all.take(i as int), always_cast),
            decreases n - i,
        {
            proof {
                assert(all.take(i + 1).drop_last() =~= all.take(i as int));
            }
            if self.spells[i].always_cast == always_cast {
                let copy = copy_of(&self.spells[i]);
                group.push(copy);
            }
            i += 1;
        }
        proof {
            assert(all.take(n as int) =~= all);
        }
        group
    }

    /// The spells that are cast with every shot, in their order.
    pub fn always_cast_spells(&self) -> (group: Vec<Spell>)
        ensures
            spell_views(group@) == self@.always_cast_spells(),
    {
        self.spells_where(true)
    }

    /// The spells that are drawn from the deck, in their order.
    pub fn drawn_spells(&self) -> (group: Vec<Spell>)
        ensures
            spell_views(group@) == self@.drawn_spells(),
    {
        self.spells_where(false)
    }

    /// How many spells are drawn from the deck.
    pub fn drawn_spell_count(&self) -> (count: usize)
        ensures
            count == self@.drawn_spells().len(),
    {
        let ghost all = self@.spells;
        let n = self.spells.len();
        let mut count: usize = 0;
        let mut i: usize = 0;
        while i < n
            invariant
                i <= n,
                n == self.spells@.len(),
                all == self@.spells,
                count <= i,
                count == spells_with(all.take(i as int), false).len(),
            decreases n - i,
        {
            proof {
                assert(all.take(i + 1).drop_last() =~= all.take(i as int));
            }
            if !self.spells[i].always_cast {
                count += 1;
            }
            i += 1;
        }
        proof {
            assert(all.take(n as int) =~= all);
        }
        count
    }

    /// Whether some spell is cast with every shot.
    pub fn has_always_cast(&self) -> (found: bool)
        ensures
            found == (self@.always_cast_spells().len() > 0),
            found == exists|i: int| 0 <= i < self@.spells.len() && self@.spells[i].always_cast,
    {
        let ghost all = self@.spells;
        let n = self.spells.len();
        let mut i: usize = 0;
        while i < n
            invariant
                i <= n,
                n == self.spells@.len(),
                all == self@.spells,
                forall|j: int| 0 <= j < i ==> !all[j].always_cast,
            decreases n - i,
        {
            if self.spells[i].always_cast {
                proof {
                    lemma_spells_partition(all);
                }
                return true;
            }
            proof {
                assert(all[i as int] == self.spells@[i as int]@);
            }
            i += 1;
        }
        proof {
            lemma_spells_partition(all);
            let group = spells_with(all, true);
            if group.len() > 0 {
                assert(group[0].always_cast == true && all.contains(group[0]));
            }
        }
        false
    }
}

} // verus!
