use vstd::prelude::*;

use crate::names::owned;
use crate::protocol::advancements::{
    Advancement as PacketAdvancement, AdvancementDisplay as PacketDisplay, AdvancementFrame as PacketFrame,
    AdvancementIcon as PacketIcon, AdvancementMapping,
};
use crate::protocol::codec::VarInt;
use crate::util::json::{lookup, put_field, find_field, without_name, JsonValue};
use crate::util::resource_location::{text_of, vanilla_namespace, ResourceLocation};
use crate::util::text::{TextComponent, TextContent};
use crate::world::advancement::AdvancementEntry;
use crate::world::criterion::{AdvancementCriterion, CriterionConditions};
use crate::world::display::AdvancementDisplay;
use crate::world::frame::AdvancementFrame;
use crate::world::rewards::AdvancementRewards;
use crate::world::triggers;

verus! {

/// The checks and decisions that turn events into granted criteria.
pub struct AdvancementTriggers;

/// A value that an event hands to the criteria it may meet.
#[derive(Debug)]
pub enum TriggerValue {
    String(String),
    Int(i64),
    /// A floating-point value, by the bit pattern of its `f64`.
    Float(u64),
    Bool(bool),
    ResourceLocation(ResourceLocation),
    /// A set of strings, each held once.
    StringSet(Vec<String>),
    ItemStack { item: String, count: i32 },
}

/// An event: the trigger that fired and its values by name.
#[derive(Debug)]
pub struct TriggerContext {
    pub trigger: ResourceLocation,
    /// The event's values by name.
    pub data: Vec<(String, TriggerValue)>,
}

impl TriggerContext {
    /// The value named `key`.
    pub open spec fn value(&self, key: Seq<char>) -> Option<TriggerValue> {
        lookup(self.data@, key)
    }

    /// Whether `self` is `old` with the value `key` set to `v`.
    pub open spec fn sets(self, old: TriggerContext, key: String, v: TriggerValue) -> bool {
        &&& self.trigger == old.trigger
        &&& self.data@ == without_name(old.data@, key@).push((key, v))
        &&& self.value(key@) == Some(v)
        &&& forall|k: Seq<char>| k != key@ ==> #[trigger] self.value(k) == old.value(k)
    }

    /// An event of `trigger` with no values.
    pub fn new(trigger: ResourceLocation) -> (r: Self)
        ensures
            r.trigger == trigger,
            r.data@.len() == 0,
    {
        Self { trigger, data: Vec::new() }
    }

    /// Sets a value, replacing one of the same name.
    fn with_value(self, key: String, value: TriggerValue) -> (r: Self)
        ensures
            r.sets(self, key, value),
    {
        let mut s = self;
        put_field(&mut s.data, key, value);
        s
    }

    /// Sets a string value.
    pub fn with_string(self, key: String, value: String) -> (r: Self)
        ensures
            r.sets(self, key, TriggerValue::String(value)),
    {
        self.with_value(key, TriggerValue::String(value))
    }

    /// Sets an integer value.
    pub fn with_int(self, key: String, value: i64) -> (r: Self)
        ensures
            r.sets(self, key, TriggerValue::Int(value)),
    {
        self.with_value(key, TriggerValue::Int(value))
    }

    /// Sets an identifier value.
    pub fn with_resource(self, key: String, value: ResourceLocation) -> (r: Self)
        ensures
            r.sets(self, key, TriggerValue::ResourceLocation(value)),
    {
        self.with_value(key, TriggerValue::ResourceLocation(value))
    }

    /// Sets a boolean value.
    pub fn with_bool(self, key: String, value: bool) -> (r: Self)
        ensures
            r.sets(self, key, TriggerValue::Bool(value)),
    {
        self.with_value(key, TriggerValue::Bool(value))
    }

    /// Sets a floating-point value, given by the bit pattern of its `f64`.
    pub fn with_float(self, key: String, value_bits: u64) -> (r: Self)
        ensures
            r.sets(self, key, TriggerValue::Float(value_bits)),
    {
        self.with_value(key, TriggerValue::Float(value_bits))
    }

    /// Sets the active effects.
    pub fn with_effects(self, effects: Vec<String>) -> (r: Self)
        ensures
            r.sets(self, r.data@.last().0, TriggerValue::StringSet(effects)),
            r.data@.last().0@ == "effects"@,
    {
        let key = owned("effects");
        self.with_value(key, TriggerValue::StringSet(effects))
    }

    /// Sets the entities involved.
    pub fn with_entity_set(self, entities: Vec<String>) -> (r: Self)
        ensures
            r.sets(self, r.data@.last().0, TriggerValue::StringSet(entities)),
            r.data@.last().0@ == "entities"@,
    {
        let key = owned("entities");
        self.with_value(key, TriggerValue::StringSet(entities))
    }

    /// Sets the item stack.
    pub fn with_item_stack(self, item: String, count: i32) -> (r: Self)
        ensures
            r.sets(self, r.data@.last().0, TriggerValue::ItemStack { item, count }),
            r.data@.last().0@ == "item"@,
    {
        let key = owned("item");
        self.with_value(key, TriggerValue::ItemStack { item, count })
    }
}

/// The vanilla namespace followed by a colon.
pub open spec fn vanilla_prefix() -> Seq<char> {
    "minecraft:"@
}

/// A name in the vanilla namespace: unchanged when it starts with `minecraft:`, else with that
/// prefix added.
pub open spec fn normalized(s: Seq<char>) -> Seq<char> {
    if s.len() >= vanilla_prefix().len() && s.take(vanilla_prefix().len() as int) == vanilla_prefix() {
        s
    } else {
        vanilla_prefix() + s
    }
}

/// Whether two names are the same vanilla name.
pub open spec fn same_name(a: Seq<char>, b: Seq<char>) -> bool {
    normalized(a) == normalized(b)
}

/// Adds the vanilla prefix to a name that lacks it.
fn normalize(s: &str) -> (r: String)
    ensures
        r@ == normalized(s@),
{
    let prefix = "minecraft:";
    proof {
        reveal_strlit("minecraft:");
    }
    let n = s.unicode_len();
    if n >= 10 {
        let head = s.substring_char(0, 10);
        let head_owned = owned(head);
        let prefix_owned = owned(prefix);
        assert(head@ =~= s@.take(10));
        if head_owned == prefix_owned {
            return owned(s);
        }
    }
    let mut r = owned(prefix);
    r.append(s);
    r
}

/// Whether two names are the same vanilla name.
fn same_vanilla_name(a: &str, b: &str) -> (r: bool)
    ensures
        r == same_name(a@, b@),
{
    normalize(a) == normalize(b)
}

/// The name an event value gives an item, entity or block: a string as it is, an identifier as
/// `minecraft:` and its path, and an item stack's item where `stack_ok`.
pub open spec fn name_of(v: Option<TriggerValue>, stack_ok: bool) -> Option<Seq<char>> {
    match v {
        Some(TriggerValue::String(s)) => Some(s@),
        Some(TriggerValue::ResourceLocation(r)) => Some(vanilla_prefix() + r.path@),
        Some(TriggerValue::ItemStack { item, .. }) => if stack_ok {
            Some(item@)
        } else {
            None
        },
        _ => None,
    }
}

/// The name an event value gives an item, entity or block.
fn value_name(context: &TriggerContext, key: &str, stack_ok: bool) -> (r: Option<String>)
    ensures
        match r {
            Some(s) => name_of(context.value(key@), stack_ok) == Some(s@),
            None => name_of(context.value(key@), stack_ok) is None,
        },
{
    proof {
        reveal_strlit("minecraft:");
    }
    match find_field(&context.data, key) {
        Some(TriggerValue::String(s)) => Some(s.clone()),
        Some(TriggerValue::ResourceLocation(r)) => {
            let mut n = owned("minecraft:");
            n.append(r.path.as_str());
            Some(n)
        },
        Some(TriggerValue::ItemStack { item, .. }) => if stack_ok {
            Some(item.clone())
        } else {
            None
        },
        _ => None,
    }
}

/// Whether one item condition admits the item `name`: when its `items` is a string, that item;
/// when it is an array, any string in it; otherwise any item.
pub open spec fn single_item_ok(cond: JsonValue, name: Seq<char>) -> bool {
    match cond.member("items"@) {
        Some(JsonValue::Str(s)) => same_name(name, s@),
        Some(JsonValue::Array(arr)) => exists|i: int|
            0 <= i < arr@.len() && (#[trigger] arr@[i]).str_of() is Some && same_name(
                name,
                arr@[i].str_of()->Some_0,
            ),
        _ => true,
    }
}

/// Whether an item condition admits the event's item: an array of conditions admits it when one
/// of them does; an event with no item passes.
pub open spec fn item_condition_ok(cond: JsonValue, context: TriggerContext) -> bool {
    match name_of(context.value("item"@), true) {
        None => true,
        Some(name) => match cond {
            JsonValue::Array(arr) => exists|i: int|
                0 <= i < arr@.len() && single_item_ok(#[trigger] arr@[i], name),
            _ => single_item_ok(cond, name),
        },
    }
}

/// Whether an entity condition of a list matches `name` by its predicate's `type`.
pub open spec fn entity_predicate_ok(cond: JsonValue, name: Seq<char>) -> bool {
    &&& cond is Object
    &&& match cond.member("predicate"@) {
        Some(p) => match p.member("type"@) {
            Some(t) => t.str_of() is Some && same_name(name, t.str_of()->Some_0),
            None => false,
        },
        None => false,
    }
}

/// Whether an entity condition admits the event's entity: a list of conditions when one of them
/// names its type by predicate; an object by its string `type`, if it has one; an event with no
/// entity passes.
pub open spec fn entity_condition_ok(cond: JsonValue, context: TriggerContext) -> bool {
    match name_of(context.value("entity"@), false) {
        None => true,
        Some(name) => match cond {
            JsonValue::Array(arr) => exists|i: int|
                0 <= i < arr@.len() && entity_predicate_ok(#[trigger] arr@[i], name),
            JsonValue::Object(_) => match cond.member("type"@) {
                Some(t) => match t.str_of() {
                    Some(s) => same_name(name, s),
                    None => true,
                },
                None => true,
            },
            _ => true,
        },
    }
}

/// The strings of a list, as texts.
pub open spec fn string_texts(v: Seq<String>) -> Seq<Seq<char>> {
    v.map_values(|s: String| s@)
}

/// Whether the event's active effects include every effect an object condition names, with or
/// without the vanilla prefix; an event with no effect set passes.
pub open spec fn effects_condition_ok(cond: JsonValue, context: TriggerContext) -> bool {
    match context.value("effects"@) {
        Some(TriggerValue::StringSet(active)) => match cond {
            JsonValue::Object(fields) => forall|i: int|
                0 <= i < fields@.len() ==> string_texts(active@).contains(
                    normalized((#[trigger] fields@[i]).0@),
                ) || string_texts(active@).contains(fields@[i].0@),
            _ => true,
        },
        _ => true,
    }
}

/// Whether a block condition's string `blocks` names the event's block; an event with no block
/// passes.
pub open spec fn block_condition_ok(cond: JsonValue, context: TriggerContext) -> bool {
    match name_of(context.value("block"@), false) {
        None => true,
        Some(name) => match cond.member("blocks"@) {
            Some(b) => match b.str_of() {
                Some(s) => same_name(name, s),
                None => true,
            },
            None => true,
        },
    }
}

/// Whether a dimension the conditions name matches the event's dimension, by its path or by
/// `minecraft:` and its path; passes when either is missing.
pub open spec fn dimension_ok(want: Option<Seq<char>>, v: Option<TriggerValue>) -> bool {
    match (want, v) {
        (Some(w), Some(TriggerValue::ResourceLocation(r))) => r.path@ == w || vanilla_prefix()
            + r.path@ == w,
        _ => true,
    }
}

/// Whether the recipe the conditions name is the event's recipe, by its full identifier or its
/// path; fails when the event has no recipe identifier.
pub open spec fn recipe_ok(want: Option<Seq<char>>, v: Option<TriggerValue>) -> bool {
    match want {
        None => true,
        Some(w) => match v {
            Some(TriggerValue::ResourceLocation(r)) => text_of(r@) == w || r.path@ == w,
            _ => false,
        },
    }
}

/// Whether the event's level reaches the minimum the conditions ask for.
pub open spec fn level_ok(min: Option<i64>, v: Option<TriggerValue>) -> bool {
    match (min, v) {
        (Some(m), Some(TriggerValue::Int(l))) => l >= m,
        _ => true,
    }
}

/// Whether an event meets conditions; `distance_ok` is the outcome of the distance check, which
/// counts only when the conditions have a `distance`.
pub open spec fn conditions_hold(c: CriterionConditions, context: TriggerContext, distance_ok: bool) -> bool {
    &&& match c.items_spec() {
        Some(i) => item_condition_ok(i, context),
        None => true,
    }
    &&& match c.field("entity"@) {
        Some(e) => entity_condition_ok(e, context),
        None => true,
    }
    &&& dimension_ok(c.str_field("from"@), context.value("from"@))
    &&& dimension_ok(c.str_field("to"@), context.value("to"@))
    &&& recipe_ok(c.str_field("recipe_id"@), context.value("recipe_id"@))
    &&& match c.field("effects"@) {
        Some(e) => effects_condition_ok(e, context),
        None => true,
    }
    &&& level_ok(c.level_spec(), context.value("level"@))
    &&& match c.field("block"@) {
        Some(b) => block_condition_ok(b, context),
        None => true,
    }
    &&& (c.field("distance"@) is Some ==> distance_ok)
}

/// Whether an entity condition of a list names `name` by its predicate's type.
fn check_entity_predicate(cond: &JsonValue, name: &str) -> (r: bool)
    ensures
        r == entity_predicate_ok(*cond, name@),
{
    if cond.as_object().is_none() {
        return false;
    }
    match cond.get("predicate") {
        Some(p) => match p.get("type") {
            Some(t) => match t.as_str() {
                Some(s) => same_vanilla_name(name, s.as_str()),
                None => false,
            },
            None => false,
        },
        None => false,
    }
}

/// Whether a list of strings holds `s`.
fn holds_string(v: &Vec<String>, s: &String) -> (r: bool)
    ensures
        r == string_texts(v@).contains(s@),
{
    let mut i: usize = 0;
    while i < v.len()
        invariant
            0 <= i <= v@.len(),
            forall|k: int| 0 <= k < i ==> (#[trigger] v@[k])@ != s@,
        decreases v@.len() - i,
    {
        if v[i] == *s {
            assert(string_texts(v@)[i as int] == s@);
            return true;
        }
        i += 1;
    }
    assert forall|k: int| 0 <= k < string_texts(v@).len() implies string_texts(v@)[k] != s@ by {
        assert(string_texts(v@)[k] == v@[k]@);
    }
    false
}

/// Whether a dimension the conditions name matches the event's value `key`.
fn check_dimension(want: Option<&str>, context: &TriggerContext, key: &str) -> (r: bool)
    ensures
        r == dimension_ok(
            match want {
                Some(w) => Some(w@),
                None => None,
            },
            context.value(key@),
        ),
{
    proof {
        reveal_strlit("minecraft:");
    }
    match want {
        Some(w) => match find_field(&context.data, key) {
            Some(TriggerValue::ResourceLocation(r)) => {
                let wanted = owned(w);
                let mut full = owned("minecraft:");
                full.append(r.path.as_str());
                !(r.path != wanted && full != wanted)
            },
            _ => true,
        },
        None => true,
    }
}

/// Whether the recipe the conditions name is the event's recipe.
fn check_recipe(want: Option<&str>, context: &TriggerContext) -> (r: bool)
    ensures
        r == recipe_ok(
            match want {
                Some(w) => Some(w@),
                None => None,
            },
            context.value("recipe_id"@),
        ),
{
    match want {
        Some(w) => match find_field(&context.data, "recipe_id") {
            Some(TriggerValue::ResourceLocation(r)) => {
                let wanted = owned(w);
                let full = r.to_string();
                !(full != wanted && r.path != wanted)
            },
            _ => false,
        },
        None => true,
    }
}

/// Whether the event's level reaches the minimum the conditions ask for.
fn check_level(min: Option<i64>, context: &TriggerContext) -> (r: bool)
    ensures
        r == level_ok(min, context.value("level"@)),
{
    match min {
        Some(m) => match find_field(&context.data, "level") {
            Some(TriggerValue::Int(level)) => !(*level < m),
            _ => true,
        },
        None => true,
    }
}

/// The display flags sent for an advancement: bit 1 for a background, bit 2 for a toast, bit 4
/// for hidden.
pub open spec fn display_flags(display: AdvancementDisplay) -> i32 {
    let a: i32 = if display.background is Some {
        0i32 | 0x01i32
    } else {
        0i32
    };
    let b: i32 = if display.show_toast {
        a | 0x02i32
    } else {
        a
    };
    if display.hidden {
        b | 0x04i32
    } else {
        b
    }
}

/// The translation key that announces completing an advancement of a frame.
pub open spec fn announcement_key(frame: AdvancementFrame) -> Seq<char> {
    match frame {
        AdvancementFrame::Task => "chat.type.advancement.task"@,
        AdvancementFrame::Goal => "chat.type.advancement.goal"@,
        AdvancementFrame::Challenge => "chat.type.advancement.challenge"@,
    }
}

/// A criterion whose only condition is the dimension its event came from is met by an event
/// that came from a dimension of that path, written bare or in the vanilla namespace, whatever
/// dimension the event went to, and by no other event that came from somewhere.
pub proof fn lemma_from_dimension_condition(
    c: CriterionConditions,
    context: TriggerContext,
    distance_ok: bool,
    want: Seq<char>,
)
    requires
        c.other@.len() == 1,
        c.other@[0].0@ == "from"@,
        c.other@[0].1 matches JsonValue::Str(w) && w@ == want,
    ensures
        context.value("from"@) matches Some(TriggerValue::ResourceLocation(f)) ==> (conditions_hold(
            c,
            context,
            distance_ok,
        ) <==> (f.path@ == want || "minecraft:"@ + f.path@ == want)),
        !(context.value("from"@) matches Some(TriggerValue::ResourceLocation(_))) ==> conditions_hold(
            c,
            context,
            distance_ok,
        ),
{
    reveal_strlit("from");
    reveal_strlit("to");
    reveal_strlit("items");
    reveal_strlit("item");
    reveal_strlit("entity");
    reveal_strlit("recipe_id");
    reveal_strlit("effects");
    reveal_strlit("level");
    reveal_strlit("block");
    reveal_strlit("distance");
    let o = c.other@;
    assert(o.drop_first().len() == 0);
    assert(c.field("from"@) == Some(o[0].1));
    assert("to"@.len() != "from"@.len());
    assert("items"@.len() != "from"@.len());
    assert("item"@[0] != "from"@[0]);
    assert("entity"@.len() != "from"@.len());
    assert("recipe_id"@.len() != "from"@.len());
    assert("effects"@.len() != "from"@.len());
    assert("level"@.len() != "from"@.len());
    assert("block"@.len() != "from"@.len());
    assert("distance"@.len() != "from"@.len());
    assert forall|k: Seq<char>| k != "from"@ implies #[trigger] lookup(o, k) is None by {
        assert(lookup(o.drop_first(), k) is None);
    }
    assert(c.field("to"@) is None);
    assert(c.field("items"@) is None);
    assert(c.field("item"@) is None);
    assert(c.field("entity"@) is None);
    assert(c.field("recipe_id"@) is None);
    assert(c.field("effects"@) is None);
    assert(c.field("level"@) is None);
    assert(c.field("block"@) is None);
    assert(c.field("distance"@) is None);
}

/// A criterion whose only condition is the dimension its event went to is met by an event
/// that went to a dimension of that path, written bare or in the vanilla namespace, whatever
/// dimension the event came from, and by no other event that went somewhere.
pub proof fn lemma_to_dimension_condition(
    c: CriterionConditions,
    context: TriggerContext,
    distance_ok: bool,
    want: Seq<char>,
)
    requires
        c.other@.len() == 1,
        c.other@[0].0@ == "to"@,
        c.other@[0].1 matches JsonValue::Str(w) && w@ == want,
    ensures
        context.value("to"@) matches Some(TriggerValue::ResourceLocation(f)) ==> (conditions_hold(
            c,
            context,
            distance_ok,
        ) <==> (f.path@ == want || "minecraft:"@ + f.path@ == want)),
        !(context.value("to"@) matches Some(TriggerValue::ResourceLocation(_))) ==> conditions_hold(
            c,
            context,
            distance_ok,
        ),
{
    reveal_strlit("from");
    reveal_strlit("to");
    reveal_strlit("items");
    reveal_strlit("item");
    reveal_strlit("entity");
    reveal_strlit("recipe_id");
    reveal_strlit("effects");
    reveal_strlit("level");
    reveal_strlit("block");
    reveal_strlit("distance");
    let o = c.other@;
    assert(o.drop_first().len() == 0);
    assert(c.field("to"@) == Some(o[0].1));
    assert("from"@.len() != "to"@.len());
    assert("items"@.len() != "to"@.len());
    assert("item"@.len() != "to"@.len());
    assert("entity"@.len() != "to"@.len());
    assert("recipe_id"@.len() != "to"@.len());
    assert("effects"@.len() != "to"@.len());
    assert("level"@.len() != "to"@.len());
    assert("block"@.len() != "to"@.len());
    assert("distance"@.len() != "to"@.len());
    assert forall|k: Seq<char>| k != "to"@ implies #[trigger] lookup(o, k) is None by {
        assert(lookup(o.drop_first(), k) is None);
    }
    assert(c.field("from"@) is None);
    assert(c.field("items"@) is None);
    assert(c.field("item"@) is None);
    assert(c.field("entity"@) is None);
    assert(c.field("recipe_id"@) is None);
    assert(c.field("effects"@) is None);
    assert(c.field("level"@) is None);
    assert(c.field("block"@) is None);
    assert(c.field("distance"@) is None);
}

/// Each frame is announced with its own key: a task with `chat.type.advancement.task`, a goal
/// with `chat.type.advancement.goal`, a challenge with `chat.type.advancement.challenge`.
pub proof fn lemma_announcement_keys()
    ensures
        announcement_key(AdvancementFrame::Task) == "chat.type.advancement.task"@,
        announcement_key(AdvancementFrame::Goal) == "chat.type.advancement.goal"@,
        announcement_key(AdvancementFrame::Challenge) == "chat.type.advancement.challenge"@,
{
}

impl AdvancementTriggers {
    /// Whether one item condition admits the item `name`.
    pub fn check_single_item_condition(cond: &JsonValue, name: &str) -> (r: bool)
        ensures
            r == single_item_ok(*cond, name@),
    {
        match cond.get("items") {
            Some(JsonValue::Str(s)) => same_vanilla_name(name, s.as_str()),
            Some(JsonValue::Array(arr)) => {
                let mut i: usize = 0;
                while i < arr.len()
                    invariant
                        0 <= i <= arr@.len(),
                        cond.member("items"@) == Some(JsonValue::Array(*arr)),
                        forall|k: int|
                            0 <= k < i ==> !((#[trigger] arr@[k]).str_of() is Some && same_name(
                                name@,
                                arr@[k].str_of()->Some_0,
                            )),
                    decreases arr@.len() - i,
                {
                    if let Some(s) = arr[i].as_str() {
                        if same_vanilla_name(name, s.as_str()) {
                            assert(arr@[i as int].str_of() is Some);
                            return true;
                        }
                    }
                    i += 1;
                }
                false
            },
            _ => true,
        }
    }

    /// Whether an item condition admits the event's item.
    pub fn check_item_condition(cond: &JsonValue, context: &TriggerContext) -> (r: bool)
        ensures
            r == item_condition_ok(*cond, *context),
    {
        let name = match value_name(context, "item", true) {
            Some(n) => n,
            None => return true,
        };
        match cond.as_array() {
            Some(arr) => {
                let mut i: usize = 0;
                while i < arr.len()
                    invariant
                        0 <= i <= arr@.len(),
                        *cond == JsonValue::Array(*arr),
                        name_of(context.value("item"@), true) == Some(name@),
                        forall|k: int| 0 <= k < i ==> !single_item_ok(#[trigger] arr@[k], name@),
                    decreases arr@.len() - i,
                {
                    if AdvancementTriggers::check_single_item_condition(&arr[i], name.as_str()) {
                        assert(single_item_ok(arr@[i as int], name@));
                        assert(name_of(context.value("item"@), true) == Some(name@));
                        assert(*cond is Array);
                        assert(cond->Array_0 == *arr);
                        assert(exists|k: int| 0 <= k < arr@.len() && single_item_ok(#[trigger] arr@[k], name@));
                        assert(item_condition_ok(*cond, *context));
                        return true;
                    }
                    i += 1;
                }
                false
            },
            None => AdvancementTriggers::check_single_item_condition(cond, name.as_str()),
        }
    }

    /// Whether an entity condition admits the event's entity.
    pub fn check_entity_condition(cond: &JsonValue, context: &TriggerContext) -> (r: bool)
        ensures
            r == entity_condition_ok(*cond, *context),
    {
        let name = match value_name(context, "entity", false) {
            Some(n) => n,
            None => return true,
        };
        match cond {
            JsonValue::Array(arr) => {
                let mut i: usize = 0;
                while i < arr.len()
                    invariant
                        0 <= i <= arr@.len(),
                        *cond == JsonValue::Array(*arr),
                        name_of(context.value("entity"@), false) == Some(name@),
                        forall|k: int| 0 <= k < i ==> !entity_predicate_ok(#[trigger] arr@[k], name@),
                    decreases arr@.len() - i,
                {
                    if check_entity_predicate(&arr[i], name.as_str()) {
                        assert(entity_predicate_ok(arr@[i as int], name@));
                        assert(cond->Array_0 == *arr);
                        assert(exists|k: int|
                            0 <= k < arr@.len() && entity_predicate_ok(#[trigger] arr@[k], name@));
                        assert(entity_condition_ok(*cond, *context));
                        return true;
                    }
                    i += 1;
                }
                false
            },
            JsonValue::Object(_) => match cond.get("type") {
                Some(t) => match t.as_str() {
                    Some(s) => same_vanilla_name(name.as_str(), s.as_str()),
                    None => true,
                },
                None => true,
            },
            _ => true,
        }
    }

    /// Whether the event's active effects include every effect the condition names.
    pub fn check_effects_condition(cond: &JsonValue, context: &TriggerContext) -> (r: bool)
        ensures
            r == effects_condition_ok(*cond, *context),
    {
        match find_field(&context.data, "effects") {
            Some(TriggerValue::StringSet(active)) => match cond {
                JsonValue::Object(fields) => {
                    let mut i: usize = 0;
                    while i < fields.len()
                        invariant
                            0 <= i <= fields@.len(),
                            *cond == JsonValue::Object(*fields),
                            context.value("effects"@) == Some(TriggerValue::StringSet(*active)),
                            forall|k: int|
                                0 <= k < i ==> string_texts(active@).contains(
                                    normalized((#[trigger] fields@[k]).0@),
                                ) || string_texts(active@).contains(fields@[k].0@),
                        decreases fields@.len() - i,
                    {
                        let effect_id = &fields[i].0;
                        let full = normalize(effect_id.as_str());
                        if !holds_string(active, &full) && !holds_string(active, effect_id) {
                            assert(!(string_texts(active@).contains(normalized(fields@[i as int].0@))
                                || string_texts(active@).contains(fields@[i as int].0@)));
                            assert(cond->Object_0 == *fields);
                            assert(!(forall|k: int|
                                0 <= k < fields@.len() ==> string_texts(active@).contains(
                                    normalized((#[trigger] fields@[k]).0@),
                                ) || string_texts(active@).contains(fields@[k].0@)));
                            assert(!effects_condition_ok(*cond, *context));
                            return false;
                        }
                        i += 1;
                    }
                    true
                },
                _ => true,
            },
            _ => true,
        }
    }

    /// Whether a block condition names the event's block.
    pub fn check_block_condition(cond: &JsonValue, context: &TriggerContext) -> (r: bool)
        ensures
            r == block_condition_ok(*cond, *context),
    {
        let name = match value_name(context, "block", false) {
            Some(n) => n,
            None => return true,
        };
        match cond.get("blocks") {
            Some(b) => match b.as_str() {
                Some(s) => same_vanilla_name(name.as_str(), s.as_str()),
                None => true,
            },
            None => true,
        }
    }

    /// Whether an event meets a criterion's conditions; a criterion with none is met by any event.
    /// `distance_ok` is the outcome of the distance check, which counts only when the conditions
    /// have a `distance`.
    pub fn check_conditions(criterion: &AdvancementCriterion, context: &TriggerContext, distance_ok: bool) -> (r: bool)
        ensures
            r == match criterion.conditions {
                None => true,
                Some(c) => conditions_hold(c, *context, distance_ok),
            },
    {
        let conditions = match &criterion.conditions {
            Some(c) => c,
            None => return true,
        };
        if let Some(items) = conditions.get_items() {
            if !AdvancementTriggers::check_item_condition(items, context) {
                return false;
            }
        }
        if let Some(entity) = conditions.get_entity() {
            if !AdvancementTriggers::check_entity_condition(entity, context) {
                return false;
            }
        }
        if !check_dimension(conditions.get_from_dimension(), context, "from") {
            return false;
        }
        if !check_dimension(conditions.get_to_dimension(), context, "to") {
            return false;
        }
        if !check_recipe(conditions.get_recipe_id(), context) {
            return false;
        }
        if let Some(effects) = conditions.get_effects() {
            if !AdvancementTriggers::check_effects_condition(effects, context) {
                return false;
            }
        }
        if !check_level(conditions.get_level(), context) {
            return false;
        }
        if let Some(block) = conditions.get_block() {
            if !AdvancementTriggers::check_block_condition(block, context) {
                return false;
            }
        }
        if conditions.get_distance().is_some() && !distance_ok {
            return false;
        }
        true
    }

    /// Whether an event meets a criterion: the criterion's trigger fired and its conditions hold.
    pub fn criterion_applies(criterion: &AdvancementCriterion, context: &TriggerContext, distance_ok: bool) -> (r: bool)
        ensures
            r == (criterion.trigger@ == context.trigger@ && match criterion.conditions {
                None => true,
                Some(c) => conditions_hold(c, *context, distance_ok),
            }),
    {
        criterion.trigger.same(&context.trigger) && AdvancementTriggers::check_conditions(criterion, context, distance_ok)
    }

    /// The protocol form of a shown advancement. The icon item's number, and the title and
    /// description as encoded text components, are given by the caller.
    pub fn create_advancement_mapping(
        id: &ResourceLocation,
        entry: &AdvancementEntry,
        display: &AdvancementDisplay,
        item_id: i32,
        title: Vec<u8>,
        description: Vec<u8>,
    ) -> (r: AdvancementMapping)
        ensures
            r.id == *id,
            r.advancement.parent == entry.advancement.parent,
            r.advancement.requirements.deep_view() == entry.advancement.requirements@,
            r.advancement.sends_telemetry_event == entry.advancement.sends_telemetry_event,
            r.advancement.display matches Some(d) && d.title@ == title@ && d.description@
                == description@ && d.icon == (PacketIcon { count: 1, item_id: Some(VarInt(item_id)), components_to_add: 0, components_to_remove: 0 }) && d.frame.ordinal_spec()
                == display.frame.ordinal_spec() && d.flags == display_flags(*display) && d.background
                == display.background && d.x_bits == display.x_bits && d.y_bits == display.y_bits,
            r.advancement.display matches Some(d) ==> (display.frame == AdvancementFrame::Task
                ==> d.frame == PacketFrame::Task) && (display.frame == AdvancementFrame::Goal
                ==> d.frame == PacketFrame::Goal) && (display.frame == AdvancementFrame::Challenge
                ==> d.frame == PacketFrame::Challenge),
    {
        let mut flags: i32 = 0;
        if display.background.is_some() {
            flags = flags | 0x01;
        }
        if display.show_toast {
            flags = flags | 0x02;
        }
        if display.hidden {
            flags = flags | 0x04;
        }
        let frame = match PacketFrame::from_ordinal(display.frame.ordinal()) {
            Some(f) => f,
            None => PacketFrame::Task,
        };
        let background = match &display.background {
            Some(b) => Some(b.clone()),
            None => None,
        };
        let packet_display = PacketDisplay {
            title,
            description,
            icon: PacketIcon::item(item_id),
            frame,
            flags,
            background,
            x_bits: display.x_bits,
            y_bits: display.y_bits,
        };
        let parent = match &entry.advancement.parent {
            Some(p) => Some(p.clone()),
            None => None,
        };
        let requirements = entry.advancement.requirements.copy().requirements;
        let advancement = PacketAdvancement {
            parent,
            display: Some(packet_display),
            requirements,
            sends_telemetry_event: entry.advancement.sends_telemetry_event,
        };
        AdvancementMapping::new(id.clone(), advancement)
    }

    /// The chat message that announces a player completing an advancement, when its display asks
    /// for one: the frame's announcement with the player's name and the advancement's title.
    pub fn completion_message(display: &AdvancementDisplay, player_name: String, title: TextComponent) -> (r: Option<TextComponent>)
        ensures
            r is Some <==> display.announce_to_chat,
            r matches Some(m) ==> (m.0.style.is_plain() && m.0.extra@.len() == 0 && (
            m.0.content matches TextContent::Translate { translate, with } && translate@
                == announcement_key(display.frame) && with@.len() == 2 && with@[0].content == (
            TextContent::Text { text: player_name }) && with@[1] == title.0)),
            r matches Some(m) ==> m.0.content matches TextContent::Translate { translate, .. } && (
            display.frame == AdvancementFrame::Task ==> translate@ == "chat.type.advancement.task"@)
                && (display.frame == AdvancementFrame::Goal ==> translate@
                == "chat.type.advancement.goal"@) && (display.frame == AdvancementFrame::Challenge
                ==> translate@ == "chat.type.advancement.challenge"@),
    {
        if !display.announce_to_chat {
            return None;
        }
        let key = match display.frame {
            AdvancementFrame::Task => owned("chat.type.advancement.task"),
            AdvancementFrame::Goal => owned("chat.type.advancement.goal"),
            AdvancementFrame::Challenge => owned("chat.type.advancement.challenge"),
        };
        let name = TextComponent::text(player_name);
        let mut with: Vec<TextComponent> = Vec::new();
        with.push(name);
        with.push(title);
        Some(TextComponent::translate(key, with))
    }

    /// The experience to grant for completing an advancement, when there is any.
    pub fn reward_experience(rewards: &AdvancementRewards) -> (r: Option<i32>)
        ensures
            r == if rewards.experience > 0 {
                Some(rewards.experience)
            } else {
                None::<i32>
            },
    {
        if rewards.experience > 0 {
            Some(rewards.experience)
        } else {
            None
        }
    }

    /// The event of `inventory_changed`, with no values.
    pub fn trigger_inventory_changed_context() -> (r: TriggerContext)
        ensures
            r.trigger@ == (vanilla_namespace(), "inventory_changed"@),
            r.data@.len() == 0,
    {
        TriggerContext::new(triggers::inventory_changed())
    }

    /// The event of `location`, with no values.
    pub fn trigger_location_context() -> (r: TriggerContext)
        ensures
            r.trigger@ == (vanilla_namespace(), "location"@),
            r.data@.len() == 0,
    {
        TriggerContext::new(triggers::location())
    }

    /// The event of `changed_dimension`: `from`, `to`.
    pub fn trigger_changed_dimension_context(from: ResourceLocation, to: ResourceLocation) -> (r: TriggerContext)
        ensures
            r.trigger@ == (vanilla_namespace(), "changed_dimension"@),
            r.value("from"@) == Some(TriggerValue::ResourceLocation(from)),
            r.value("to"@) == Some(TriggerValue::ResourceLocation(to)),
            r.data@.len() == 2,
    {
        proof {
            reveal_with_fuel(without_name, 3);
            reveal_strlit("from");
            reveal_strlit("to");
            assert("from"@[0] != "to"@[0] || "from"@.len() != "to"@.len());
            assert("from"@ != "to"@);
        }
        let mut context = TriggerContext::new(triggers::changed_dimension());
        context = context.with_resource(owned("from"), from);
        context = context.with_resource(owned("to"), to);
        context
    }

    /// The event of `player_killed_entity`: `entity`.
    pub fn trigger_player_killed_entity_context(entity_type: ResourceLocation) -> (r: TriggerContext)
        ensures
            r.trigger@ == (vanilla_namespace(), "player_killed_entity"@),
            r.value("entity"@) == Some(TriggerValue::ResourceLocation(entity_type)),
            r.data@.len() == 1,
    {
        proof {
            reveal_strlit("entity");
        }
        let mut context = TriggerContext::new(triggers::player_killed_entity());
        context = context.with_resource(owned("entity"), entity_type);
        context
    }

    /// The event of `consume_item`: `item`.
    pub fn trigger_consume_item_context(item: ResourceLocation) -> (r: TriggerContext)
        ensures
            r.trigger@ == (vanilla_namespace(), "consume_item"@),
            r.value("item"@) == Some(TriggerValue::ResourceLocation(item)),
            r.data@.len() == 1,
    {
        proof {
            reveal_strlit("item");
        }
        let mut context = TriggerContext::new(triggers::consume_item());
        context = context.with_resource(owned("item"), item);
        context
    }

    /// The event of `recipe_crafted`: `recipe_id`.
    pub fn trigger_recipe_crafted_context(recipe: ResourceLocation) -> (r: TriggerContext)
        ensures
            r.trigger@ == (vanilla_namespace(), "recipe_crafted"@),
            r.value("recipe_id"@) == Some(TriggerValue::ResourceLocation(recipe)),
            r.data@.len() == 1,
    {
        proof {
            reveal_strlit("recipe_id");
        }
        let mut context = TriggerContext::new(triggers::recipe_crafted());
        context = context.with_resource(owned("recipe_id"), recipe);
        context
    }

    /// The event of `tick`, with no values.
    pub fn trigger_tick_context() -> (r: TriggerContext)
        ensures
            r.trigger@ == (vanilla_namespace(), "tick"@),
            r.data@.len() == 0,
    {
        TriggerContext::new(triggers::tick())
    }

    /// The event of `bred_animals`: `entity`.
    pub fn trigger_bred_animals_context(entity_type: ResourceLocation) -> (r: TriggerContext)
        ensures
            r.trigger@ == (vanilla_namespace(), "bred_animals"@),
            r.value("entity"@) == Some(TriggerValue::ResourceLocation(entity_type)),
            r.data@.len() == 1,
    {
        proof {
            reveal_strlit("entity");
        }
        let mut context = TriggerContext::new(triggers::bred_animals());
        context = context.with_resource(owned("entity"), entity_type);
        context
    }

    /// The event of `enter_block`: `block`.
    pub fn trigger_enter_block_context(block: ResourceLocation) -> (r: TriggerContext)
        ensures
            r.trigger@ == (vanilla_namespace(), "enter_block"@),
            r.value("block"@) == Some(TriggerValue::ResourceLocation(block)),
            r.data@.len() == 1,
    {
        proof {
            reveal_strlit("block");
        }
        let mut context = TriggerContext::new(triggers::enter_block());
        context = context.with_resource(owned("block"), block);
        context
    }

    /// The event of `slept_in_bed`, with no values.
    pub fn trigger_slept_in_bed_context() -> (r: TriggerContext)
        ensures
            r.trigger@ == (vanilla_namespace(), "slept_in_bed"@),
            r.data@.len() == 0,
    {
        TriggerContext::new(triggers::slept_in_bed())
    }

    /// The event of `hero_of_the_village`, with no values.
    pub fn trigger_hero_of_the_village_context() -> (r: TriggerContext)
        ensures
            r.trigger@ == (vanilla_namespace(), "hero_of_the_village"@),
            r.data@.len() == 0,
    {
        TriggerContext::new(triggers::hero_of_the_village())
    }

    /// The event of `voluntary_exile`, with no values.
    pub fn trigger_voluntary_exile_context() -> (r: TriggerContext)
        ensures
            r.trigger@ == (vanilla_namespace(), "voluntary_exile"@),
            r.data@.len() == 0,
    {
        TriggerContext::new(triggers::voluntary_exile())
    }

    /// The event of `villager_trade`: `villager`, `villager`.
    pub fn trigger_villager_trade_context(villager_type: Option<ResourceLocation>) -> (r: TriggerContext)
        ensures
            r.trigger@ == (vanilla_namespace(), "villager_trade"@),
            r.value("villager"@) == match villager_type {
                Some(vt) => Some(TriggerValue::ResourceLocation(vt)),
                None => None,
            },
            r.data@.len() == if villager_type is Some { 1int } else { 0int },
    {
        proof {
            reveal_with_fuel(without_name, 3);
            reveal_strlit("villager");
        }
        let mut context = TriggerContext::new(triggers::villager_trade());
        if let Some(vt) = villager_type {
            context = context.with_resource(owned("villager"), vt);
        }
        context
    }

    /// The event of `tame_animal`: `entity`.
    pub fn trigger_tame_animal_context(entity_type: ResourceLocation) -> (r: TriggerContext)
        ensures
            r.trigger@ == (vanilla_namespace(), "tame_animal"@),
            r.value("entity"@) == Some(TriggerValue::ResourceLocation(entity_type)),
            r.data@.len() == 1,
    {
        proof {
            reveal_strlit("entity");
        }
        let mut context = TriggerContext::new(triggers::tame_animal());
        context = context.with_resource(owned("entity"), entity_type);
        context
    }

    /// The event of `summoned_entity`: `entity`.
    pub fn trigger_summoned_entity_context(entity_type: ResourceLocation) -> (r: TriggerContext)
        ensures
            r.trigger@ == (vanilla_namespace(), "summoned_entity"@),
            r.value("entity"@) == Some(TriggerValue::ResourceLocation(entity_type)),
            r.data@.len() == 1,
    {
        proof {
            reveal_strlit("entity");
        }
        let mut context = TriggerContext::new(triggers::summoned_entity());
        context = context.with_resource(owned("entity"), entity_type);
        context
    }

    /// The event of `player_hurt_entity`: `entity`.
    pub fn trigger_player_hurt_entity_context(entity_type: ResourceLocation) -> (r: TriggerContext)
        ensures
            r.trigger@ == (vanilla_namespace(), "player_hurt_entity"@),
            r.value("entity"@) == Some(TriggerValue::ResourceLocation(entity_type)),
            r.data@.len() == 1,
    {
        proof {
            reveal_strlit("entity");
        }
        let mut context = TriggerContext::new(triggers::player_hurt_entity());
        context = context.with_resource(owned("entity"), entity_type);
        context
    }

    /// The event of `entity_hurt_player`: `entity`.
    pub fn trigger_entity_hurt_player_context(entity_type: ResourceLocation) -> (r: TriggerContext)
        ensures
            r.trigger@ == (vanilla_namespace(), "entity_hurt_player"@),
            r.value("entity"@) == Some(TriggerValue::ResourceLocation(entity_type)),
            r.data@.len() == 1,
    {
        proof {
            reveal_strlit("entity");
        }
        let mut context = TriggerContext::new(triggers::entity_hurt_player());
        context = context.with_resource(owned("entity"), entity_type);
        context
    }

    /// The event of `item_used_on_block`: `item`, `block`.
    pub fn trigger_item_used_on_block_context(item: ResourceLocation, block: ResourceLocation) -> (r: TriggerContext)
        ensures
            r.trigger@ == (vanilla_namespace(), "item_used_on_block"@),
            r.value("item"@) == Some(TriggerValue::ResourceLocation(item)),
            r.value("block"@) == Some(TriggerValue::ResourceLocation(block)),
            r.data@.len() == 2,
    {
        proof {
            reveal_with_fuel(without_name, 3);
            reveal_strlit("item");
            reveal_strlit("block");
            assert("item"@[0] != "block"@[0] || "item"@.len() != "block"@.len());
            assert("item"@ != "block"@);
        }
        let mut context = TriggerContext::new(triggers::item_used_on_block());
        context = context.with_resource(owned("item"), item);
        context = context.with_resource(owned("block"), block);
        context
    }

    /// The event of `filled_bucket`: `item`.
    pub fn trigger_filled_bucket_context(item: ResourceLocation) -> (r: TriggerContext)
        ensures
            r.trigger@ == (vanilla_namespace(), "filled_bucket"@),
            r.value("item"@) == Some(TriggerValue::ResourceLocation(item)),
            r.data@.len() == 1,
    {
        proof {
            reveal_strlit("item");
        }
        let mut context = TriggerContext::new(triggers::filled_bucket());
        context = context.with_resource(owned("item"), item);
        context
    }

    /// The event of `fishing_rod_hooked`: `item`, `item`.
    pub fn trigger_fishing_rod_hooked_context(item: Option<ResourceLocation>) -> (r: TriggerContext)
        ensures
            r.trigger@ == (vanilla_namespace(), "fishing_rod_hooked"@),
            r.value("item"@) == match item {
                Some(i) => Some(TriggerValue::ResourceLocation(i)),
                None => None,
            },
            r.data@.len() == if item is Some { 1int } else { 0int },
    {
        proof {
            reveal_with_fuel(without_name, 3);
            reveal_strlit("item");
        }
        let mut context = TriggerContext::new(triggers::fishing_rod_hooked());
        if let Some(i) = item {
            context = context.with_resource(owned("item"), i);
        }
        context
    }

    /// The event of `enchanted_item`: `item`.
    pub fn trigger_enchanted_item_context(item: ResourceLocation) -> (r: TriggerContext)
        ensures
            r.trigger@ == (vanilla_namespace(), "enchanted_item"@),
            r.value("item"@) == Some(TriggerValue::ResourceLocation(item)),
            r.data@.len() == 1,
    {
        proof {
            reveal_strlit("item");
        }
        let mut context = TriggerContext::new(triggers::enchanted_item());
        context = context.with_resource(owned("item"), item);
        context
    }

    /// The event of `brewed_potion`: `potion`, `potion`.
    pub fn trigger_brewed_potion_context(potion: Option<String>) -> (r: TriggerContext)
        ensures
            r.trigger@ == (vanilla_namespace(), "brewed_potion"@),
            r.value("potion"@) == match potion {
                Some(p) => Some(TriggerValue::String(p)),
                None => None,
            },
            r.data@.len() == if potion is Some { 1int } else { 0int },
    {
        proof {
            reveal_with_fuel(without_name, 3);
            reveal_strlit("potion");
        }
        let mut context = TriggerContext::new(triggers::brewed_potion());
        if let Some(p) = potion {
            context = context.with_string(owned("potion"), p);
        }
        context
    }

    /// The event of `construct_beacon`: `level`.
    pub fn trigger_construct_beacon_context(level: i32) -> (r: TriggerContext)
        ensures
            r.trigger@ == (vanilla_namespace(), "construct_beacon"@),
            r.value("level"@) == Some(TriggerValue::Int(level as i64)),
            r.data@.len() == 1,
    {
        proof {
            reveal_strlit("level");
        }
        let mut context = TriggerContext::new(triggers::construct_beacon());
        context = context.with_int(owned("level"), level as i64);
        context
    }

    /// The event of `used_totem`, with no values.
    pub fn trigger_used_totem_context() -> (r: TriggerContext)
        ensures
            r.trigger@ == (vanilla_namespace(), "used_totem"@),
            r.data@.len() == 0,
    {
        TriggerContext::new(triggers::used_totem())
    }

    /// The event of `nether_travel`: `distance`.
    pub fn trigger_nether_travel_context(distance_bits: u64) -> (r: TriggerContext)
        ensures
            r.trigger@ == (vanilla_namespace(), "nether_travel"@),
            r.value("distance"@) == Some(TriggerValue::Float(distance_bits)),
            r.data@.len() == 1,
    {
        proof {
            reveal_strlit("distance");
        }
        let mut context = TriggerContext::new(triggers::nether_travel());
        context = context.with_float(owned("distance"), distance_bits);
        context
    }

    /// The event of `levitation`: `vertical_distance`.
    pub fn trigger_levitation_context(distance_bits: u64) -> (r: TriggerContext)
        ensures
            r.trigger@ == (vanilla_namespace(), "levitation"@),
            r.value("vertical_distance"@) == Some(TriggerValue::Float(distance_bits)),
            r.data@.len() == 1,
    {
        proof {
            reveal_strlit("vertical_distance");
        }
        let mut context = TriggerContext::new(triggers::levitation());
        context = context.with_float(owned("vertical_distance"), distance_bits);
        context
    }

    /// The event of `fall_from_height`: `distance`.
    pub fn trigger_fall_from_height_context(distance_bits: u64) -> (r: TriggerContext)
        ensures
            r.trigger@ == (vanilla_namespace(), "fall_from_height"@),
            r.value("distance"@) == Some(TriggerValue::Float(distance_bits)),
            r.data@.len() == 1,
    {
        proof {
            reveal_strlit("distance");
        }
        let mut context = TriggerContext::new(triggers::fall_from_height());
        context = context.with_float(owned("distance"), distance_bits);
        context
    }

    /// The event of `started_riding`: `entity`.
    pub fn trigger_started_riding_context(entity_type: ResourceLocation) -> (r: TriggerContext)
        ensures
            r.trigger@ == (vanilla_namespace(), "started_riding"@),
            r.value("entity"@) == Some(TriggerValue::ResourceLocation(entity_type)),
            r.data@.len() == 1,
    {
        proof {
            reveal_strlit("entity");
        }
        let mut context = TriggerContext::new(triggers::started_riding());
        context = context.with_resource(owned("entity"), entity_type);
        context
    }

    /// The event of `shot_crossbow`: `item`.
    pub fn trigger_shot_crossbow_context(item: ResourceLocation) -> (r: TriggerContext)
        ensures
            r.trigger@ == (vanilla_namespace(), "shot_crossbow"@),
            r.value("item"@) == Some(TriggerValue::ResourceLocation(item)),
            r.data@.len() == 1,
    {
        proof {
            reveal_strlit("item");
        }
        let mut context = TriggerContext::new(triggers::shot_crossbow());
        context = context.with_resource(owned("item"), item);
        context
    }

    /// The event of `killed_by_crossbow`: `unique_entity_types`.
    pub fn trigger_killed_by_crossbow_context(unique_kills: i32) -> (r: TriggerContext)
        ensures
            r.trigger@ == (vanilla_namespace(), "killed_by_crossbow"@),
            r.value("unique_entity_types"@) == Some(TriggerValue::Int(unique_kills as i64)),
            r.data@.len() == 1,
    {
        proof {
            reveal_strlit("unique_entity_types");
        }
        let mut context = TriggerContext::new(triggers::killed_by_crossbow());
        context = context.with_int(owned("unique_entity_types"), unique_kills as i64);
        context
    }

    /// The event of `target_hit`: `signal_strength`.
    pub fn trigger_target_hit_context(signal_strength: i32) -> (r: TriggerContext)
        ensures
            r.trigger@ == (vanilla_namespace(), "target_hit"@),
            r.value("signal_strength"@) == Some(TriggerValue::Int(signal_strength as i64)),
            r.data@.len() == 1,
    {
        proof {
            reveal_strlit("signal_strength");
        }
        let mut context = TriggerContext::new(triggers::target_hit());
        context = context.with_int(owned("signal_strength"), signal_strength as i64);
        context
    }

    /// The event of `lightning_strike`, with no values.
    pub fn trigger_lightning_strike_context() -> (r: TriggerContext)
        ensures
            r.trigger@ == (vanilla_namespace(), "lightning_strike"@),
            r.data@.len() == 0,
    {
        TriggerContext::new(triggers::lightning_strike())
    }

    /// The event of `using_item`: `item`.
    pub fn trigger_using_item_context(item: ResourceLocation) -> (r: TriggerContext)
        ensures
            r.trigger@ == (vanilla_namespace(), "using_item"@),
            r.value("item"@) == Some(TriggerValue::ResourceLocation(item)),
            r.data@.len() == 1,
    {
        proof {
            reveal_strlit("item");
        }
        let mut context = TriggerContext::new(triggers::using_item());
        context = context.with_resource(owned("item"), item);
        context
    }

    /// The event of `thrown_item_picked_up_by_entity`: `item`, `entity`.
    pub fn trigger_thrown_item_picked_up_by_entity_context(item: ResourceLocation, entity: ResourceLocation) -> (r: TriggerContext)
        ensures
            r.trigger@ == (vanilla_namespace(), "thrown_item_picked_up_by_entity"@),
            r.value("item"@) == Some(TriggerValue::ResourceLocation(item)),
            r.value("entity"@) == Some(TriggerValue::ResourceLocation(entity)),
            r.data@.len() == 2,
    {
        proof {
            reveal_with_fuel(without_name, 3);
            reveal_strlit("item");
            reveal_strlit("entity");
            assert("item"@[0] != "entity"@[0] || "item"@.len() != "entity"@.len());
            assert("item"@ != "entity"@);
        }
        let mut context = TriggerContext::new(triggers::thrown_item_picked_up_by_entity());
        context = context.with_resource(owned("item"), item);
        context = context.with_resource(owned("entity"), entity);
        context
    }

    /// The event of `player_interacted_with_entity`: `item`, `entity`.
    pub fn trigger_player_interacted_with_entity_context(item: ResourceLocation, entity: ResourceLocation) -> (r: TriggerContext)
        ensures
            r.trigger@ == (vanilla_namespace(), "player_interacted_with_entity"@),
            r.value("item"@) == Some(TriggerValue::ResourceLocation(item)),
            r.value("entity"@) == Some(TriggerValue::ResourceLocation(entity)),
            r.data@.len() == 2,
    {
        proof {
            reveal_with_fuel(without_name, 3);
            reveal_strlit("item");
            reveal_strlit("entity");
            assert("item"@[0] != "entity"@[0] || "item"@.len() != "entity"@.len());
            assert("item"@ != "entity"@);
        }
        let mut context = TriggerContext::new(triggers::player_interacted_with_entity());
        context = context.with_resource(owned("item"), item);
        context = context.with_resource(owned("entity"), entity);
        context
    }

    /// The event of `bee_nest_destroyed`: `block`, `num_bees_inside`.
    pub fn trigger_bee_nest_destroyed_context(block: ResourceLocation, bees_inside: i32) -> (r: TriggerContext)
        ensures
            r.trigger@ == (vanilla_namespace(), "bee_nest_destroyed"@),
            r.value("block"@) == Some(TriggerValue::ResourceLocation(block)),
            r.value("num_bees_inside"@) == Some(TriggerValue::Int(bees_inside as i64)),
            r.data@.len() == 2,
    {
        proof {
            reveal_with_fuel(without_name, 3);
            reveal_strlit("block");
            reveal_strlit("num_bees_inside");
            assert("block"@[0] != "num_bees_inside"@[0] || "block"@.len() != "num_bees_inside"@.len());
            assert("block"@ != "num_bees_inside"@);
        }
        let mut context = TriggerContext::new(triggers::bee_nest_destroyed());
        context = context.with_resource(owned("block"), block);
        context = context.with_int(owned("num_bees_inside"), bees_inside as i64);
        context
    }

    /// The event of `cured_zombie_villager`, with no values.
    pub fn trigger_cured_zombie_villager_context() -> (r: TriggerContext)
        ensures
            r.trigger@ == (vanilla_namespace(), "cured_zombie_villager"@),
            r.data@.len() == 0,
    {
        TriggerContext::new(triggers::cured_zombie_villager())
    }

    /// The event of `slide_down_block`: `block`.
    pub fn trigger_slide_down_block_context(block: ResourceLocation) -> (r: TriggerContext)
        ensures
            r.trigger@ == (vanilla_namespace(), "slide_down_block"@),
            r.value("block"@) == Some(TriggerValue::ResourceLocation(block)),
            r.data@.len() == 1,
    {
        proof {
            reveal_strlit("block");
        }
        let mut context = TriggerContext::new(triggers::slide_down_block());
        context = context.with_resource(owned("block"), block);
        context
    }

    /// The event of `fall_after_explosion`: `distance`.
    pub fn trigger_fall_after_explosion_context(distance_bits: u64) -> (r: TriggerContext)
        ensures
            r.trigger@ == (vanilla_namespace(), "fall_after_explosion"@),
            r.value("distance"@) == Some(TriggerValue::Float(distance_bits)),
            r.data@.len() == 1,
    {
        proof {
            reveal_strlit("distance");
        }
        let mut context = TriggerContext::new(triggers::fall_after_explosion());
        context = context.with_float(owned("distance"), distance_bits);
        context
    }

    /// The event of `avoid_vibration`, with no values.
    pub fn trigger_avoid_vibration_context() -> (r: TriggerContext)
        ensures
            r.trigger@ == (vanilla_namespace(), "avoid_vibration"@),
            r.data@.len() == 0,
    {
        TriggerContext::new(triggers::avoid_vibration())
    }

    /// The event of `allay_drop_item_on_block`: `item`.
    pub fn trigger_allay_drop_item_on_block_context(item: ResourceLocation) -> (r: TriggerContext)
        ensures
            r.trigger@ == (vanilla_namespace(), "allay_drop_item_on_block"@),
            r.value("item"@) == Some(TriggerValue::ResourceLocation(item)),
            r.data@.len() == 1,
    {
        proof {
            reveal_strlit("item");
        }
        let mut context = TriggerContext::new(triggers::allay_drop_item_on_block());
        context = context.with_resource(owned("item"), item);
        context
    }

    /// The event of `kill_mob_near_sculk_catalyst`: `entity`.
    pub fn trigger_kill_mob_near_sculk_catalyst_context(entity_type: ResourceLocation) -> (r: TriggerContext)
        ensures
            r.trigger@ == (vanilla_namespace(), "kill_mob_near_sculk_catalyst"@),
            r.value("entity"@) == Some(TriggerValue::ResourceLocation(entity_type)),
            r.data@.len() == 1,
    {
        proof {
            reveal_strlit("entity");
        }
        let mut context = TriggerContext::new(triggers::kill_mob_near_sculk_catalyst());
        context = context.with_resource(owned("entity"), entity_type);
        context
    }

    /// The event of `placed_block`: `block`.
    pub fn trigger_placed_block_context(block: ResourceLocation) -> (r: TriggerContext)
        ensures
            r.trigger@ == (vanilla_namespace(), "placed_block"@),
            r.value("block"@) == Some(TriggerValue::ResourceLocation(block)),
            r.data@.len() == 1,
    {
        proof {
            reveal_strlit("block");
        }
        let mut context = TriggerContext::new(triggers::placed_block());
        context = context.with_resource(owned("block"), block);
        context
    }

    /// The event of `used_ender_eye`: `distance`.
    pub fn trigger_used_ender_eye_context(distance_bits: u64) -> (r: TriggerContext)
        ensures
            r.trigger@ == (vanilla_namespace(), "used_ender_eye"@),
            r.value("distance"@) == Some(TriggerValue::Float(distance_bits)),
            r.data@.len() == 1,
    {
        proof {
            reveal_strlit("distance");
        }
        let mut context = TriggerContext::new(triggers::used_ender_eye());
        context = context.with_float(owned("distance"), distance_bits);
        context
    }

    /// The event of `effects_changed`: the active `effects`.
    pub fn trigger_effects_changed_context(effects: Vec<String>) -> (r: TriggerContext)
        ensures
            r.trigger@ == (vanilla_namespace(), "effects_changed"@),
            r.value("effects"@) == Some(TriggerValue::StringSet(effects)),
            r.data@.len() == 1,
    {
        TriggerContext::new(triggers::effects_changed()).with_effects(effects)
    }

    /// The event of `channeled_lightning`: the struck `entities`, each as `namespace:path`,
    /// once.
    pub fn trigger_channeled_lightning_context(victims: Vec<ResourceLocation>) -> (r: TriggerContext)
        ensures
            r.trigger@ == (vanilla_namespace(), "channeled_lightning"@),
            r.data@.len() == 1,
            r.value("entities"@) matches Some(TriggerValue::StringSet(set)) && string_texts(
                set@,
            ).no_duplicates() && forall|t: Seq<char>|
                #[trigger] string_texts(set@).contains(t) <==> exists|i: int|
                    0 <= i < victims@.len() && text_of(victims@[i]@) == t,
    {
        let mut set: Vec<String> = Vec::new();
        let mut i: usize = 0;
        while i < victims.len()
            invariant
                0 <= i <= victims@.len(),
                string_texts(set@).no_duplicates(),
                forall|t: Seq<char>|
                    #[trigger] string_texts(set@).contains(t) <==> exists|k: int|
                        0 <= k < i && text_of(victims@[k]@) == t,
            decreases victims@.len() - i,
        {
            let name = victims[i].to_string();
            let ghost before = set@;
            if !holds_string(&set, &name) {
                set.push(name);
                assert(string_texts(set@) =~= string_texts(before).push(name@));
            } else {
                assert(string_texts(set@) =~= string_texts(before));
            }
            assert forall|t: Seq<char>|
                #[trigger] string_texts(set@).contains(t) <==> exists|k: int|
                    0 <= k < i + 1 && text_of(victims@[k]@) == t by {
                if string_texts(set@).contains(t) && t != name@ {
                    assert(string_texts(before).contains(t));
                }
                if exists|k: int| 0 <= k < i + 1 && text_of(victims@[k]@) == t {
                    let k = choose|k: int| 0 <= k < i + 1 && text_of(victims@[k]@) == t;
                    if k < i {
                        assert(string_texts(before).contains(t));
                        let j = choose|j: int| 0 <= j < string_texts(before).len() && string_texts(before)[j] == t;
                        if string_texts(set@).len() > string_texts(before).len() {
                            assert(string_texts(set@)[j] == t);
                        }
                    } else {
                        assert(t == name@);
                        if !string_texts(before).contains(name@) {
                            assert(string_texts(set@)[before.len() as int] == name@);
                        }
                    }
                }
            }
            i += 1;
        }
        TriggerContext::new(triggers::channeled_lightning()).with_entity_set(set)
    }
}

} // verus!
