use vstd::prelude::*;

use crate::util::json::{lookup, without_name, JsonValue};
use crate::util::resource_location::{has_char, parse_spec, ResourceLocation};
use crate::util::text::{TextComponent, TextContent};
use crate::world::advancement::{Advancement, AdvancementEntry};
use crate::world::criterion::{AdvancementCriterion, CriterionConditions, criteria_keys};
use crate::world::display::{AdvancementDisplay, AdvancementIcon};
use crate::world::frame::AdvancementFrame;
use crate::world::requirements::{each_alone, AdvancementRequirements};
use crate::world::rewards::AdvancementRewards;

verus! {

/// An advancement as a data file writes it.
#[derive(Debug)]
pub struct RawAdvancement {
    pub parent: Option<String>,
    pub display: Option<RawDisplay>,
    /// The criteria by name, in the order the file gives them.
    pub criteria: Vec<(String, RawCriterion)>,
    pub requirements: Option<Vec<Vec<String>>>,
    pub rewards: Option<RawRewards>,
    pub sends_telemetry_event: bool,
}

/// A display as a data file writes it.
#[derive(Debug)]
pub struct RawDisplay {
    pub icon: RawIcon,
    pub title: JsonValue,
    /// The title as compact JSON text.
    pub title_json: String,
    pub description: JsonValue,
    /// The description as compact JSON text.
    pub description_json: String,
    pub frame: Option<String>,
    pub background: Option<String>,
    pub show_toast: bool,
    pub announce_to_chat: bool,
    pub hidden: bool,
}

/// An icon as a data file writes it.
#[derive(Debug)]
pub struct RawIcon {
    pub id: String,
    pub count: Option<i32>,
    pub components: Option<JsonValue>,
}

/// A criterion as a data file writes it.
#[derive(Debug)]
pub struct RawCriterion {
    pub trigger: String,
    pub conditions: Option<JsonValue>,
}

/// Rewards as a data file writes them.
#[derive(Debug)]
pub struct RawRewards {
    pub experience: i32,
    pub recipes: Option<Vec<String>>,
    pub loot: Option<Vec<String>>,
    pub function: Option<String>,
}

/// Whether a text holds a colon.
fn contains_colon(s: &str) -> (r: bool)
    ensures
        r == has_char(s@, ':'),
{
    let n = s.unicode_len();
    let mut i: usize = 0;
    while i < n
        invariant
            0 <= i <= n,
            n == s@.len(),
            forall|k: int| 0 <= k < i ==> s@[k] != ':',
        decreases n - i,
    {
        if s.get_char(i) == ':' {
            return true;
        }
        i += 1;
    }
    false
}

/// Reads an identifier, taking a text with no namespace as a vanilla one.
fn parse_id(s: &str) -> (r: ResourceLocation)
    ensures
        r@ == parse_spec(s@),
{
    if contains_colon(s) {
        ResourceLocation::from(s)
    } else {
        ResourceLocation::vanilla(s)
    }
}

/// Reads an identifier.
fn parse_resource_location(s: &str) -> (r: ResourceLocation)
    ensures
        r@ == parse_spec(s@),
{
    ResourceLocation::from(s)
}

/// The texts of a list of strings, in order.
pub open spec fn texts(v: Seq<String>) -> Seq<Seq<char>> {
    v.map_values(|s: String| s@)
}

/// The identifiers a list of texts stands for, in order.
pub open spec fn ids_of(v: Seq<String>) -> Seq<(Seq<char>, Seq<char>)> {
    v.map_values(|s: String| parse_spec(s@))
}

/// Whether a text title is shown as a translation key (`true`) or as plain text, and the key
/// or text: a JSON string is that text; an object with a string `translate` is that key, else
/// one with a string `text` is that text; anything else shows its JSON text.
pub open spec fn title_spec(value: JsonValue, json_text: Seq<char>) -> (bool, Seq<char>) {
    match value.str_of() {
        Some(s) => (false, s),
        None => if value is Object {
            match value.member("translate"@) {
                Some(t) if t.str_of() is Some => (true, t.str_of()->Some_0),
                _ => match value.member("text"@) {
                    Some(t) if t.str_of() is Some => (false, t.str_of()->Some_0),
                    _ => (false, json_text),
                },
            }
        } else {
            (false, json_text)
        },
    }
}

/// Whether a component shows, unstyled, what `title_spec` says.
pub open spec fn shows_title(c: TextComponent, spec: (bool, Seq<char>)) -> bool {
    &&& c.0.style.is_plain()
    &&& c.0.extra@.len() == 0
    &&& match c.0.content {
        TextContent::Text { text } => !spec.0 && text@ == spec.1,
        TextContent::Translate { translate, with } => spec.0 && translate@ == spec.1
            && with@.len() == 0,
        _ => false,
    }
}

/// Turns a JSON title into a text component; `json_text` is the value's JSON text, shown when
/// the value is neither a string nor an object with a string `translate` or `text`.
fn parse_text_component(value: &JsonValue, json_text: &str) -> (r: TextComponent)
    ensures
        shows_title(r, title_spec(*value, json_text@)),
{
    match value.as_str() {
        Some(s) => TextComponent::text(s.clone()),
        None => match value.as_object() {
            Some(_) => {
                let translate = match value.get("translate") {
                    Some(t) => t.as_str(),
                    None => None,
                };
                match translate {
                    Some(key) => TextComponent::translate(key.clone(), Vec::new()),
                    None => {
                        let text = match value.get("text") {
                            Some(t) => t.as_str(),
                            None => None,
                        };
                        match text {
                            Some(t) => TextComponent::text(t.clone()),
                            None => TextComponent::text(json_text.to_string()),
                        }
                    },
                }
            },
            None => TextComponent::text(json_text.to_string()),
        },
    }
}

/// The frame a data file names: `goal`, `challenge`, and a task for anything else.
pub open spec fn frame_spec(name: Option<Seq<char>>) -> AdvancementFrame {
    if name == Some("goal"@) {
        AdvancementFrame::Goal
    } else if name == Some("challenge"@) {
        AdvancementFrame::Challenge
    } else {
        AdvancementFrame::Task
    }
}

/// A data file's frame `goal` is a goal, `challenge` a challenge, and any other text or none a
/// task.
pub proof fn lemma_frame_names(name: Option<Seq<char>>)
    ensures
        name == Some("goal"@) ==> frame_spec(name) == AdvancementFrame::Goal,
        name == Some("challenge"@) ==> frame_spec(name) == AdvancementFrame::Challenge,
        name != Some("goal"@) && name != Some("challenge"@) ==> frame_spec(name)
            == AdvancementFrame::Task,
{
    reveal_strlit("goal");
    reveal_strlit("challenge");
    assert("goal"@.len() != "challenge"@.len());
}

/// The frame a data file names.
fn parse_frame(name: &Option<String>) -> (r: AdvancementFrame)
    ensures
        r == frame_spec(
            match name {
                Some(s) => Some(s@),
                None => None,
            },
        ),
        name matches Some(s) && s@ == "goal"@ ==> r == AdvancementFrame::Goal,
        name matches Some(s) && s@ == "challenge"@ ==> r == AdvancementFrame::Challenge,
        !(name matches Some(s) && (s@ == "goal"@ || s@ == "challenge"@)) ==> r
            == AdvancementFrame::Task,
{
    proof {
        reveal_strlit("goal");
        reveal_strlit("challenge");
        assert("goal"@.len() != "challenge"@.len());
    }
    match name {
        Some(s) => {
            let goal = "goal".to_string();
            let challenge = "challenge".to_string();
            proof {
                vstd::string::to_string_from_display_ensures_for_str("goal", goal);
                vstd::string::to_string_from_display_ensures_for_str("challenge", challenge);
            }
            if *s == goal {
                AdvancementFrame::Goal
            } else if *s == challenge {
                AdvancementFrame::Challenge
            } else {
                AdvancementFrame::Task
            }
        },
        None => AdvancementFrame::Task,
    }
}

/// Whether `d` is the display a raw display describes.
pub open spec fn display_spec(d: AdvancementDisplay, raw: RawDisplay) -> bool {
    &&& d.icon.item@ == parse_spec(raw.icon.id@)
    &&& d.icon.count == match raw.icon.count {
        Some(c) => c,
        None => 1,
    }
    &&& d.icon.components == raw.icon.components
    &&& shows_title(d.title, title_spec(raw.title, raw.title_json@))
    &&& shows_title(d.description, title_spec(raw.description, raw.description_json@))
    &&& d.frame == frame_spec(
        match raw.frame {
            Some(s) => Some(s@),
            None => None,
        },
    )
    &&& match (d.background, raw.background) {
        (Some(b), Some(rb)) => b@ == parse_spec(rb@),
        (None, None) => true,
        _ => false,
    }
    &&& d.show_toast == raw.show_toast
    &&& d.announce_to_chat == raw.announce_to_chat
    &&& d.hidden == raw.hidden
    &&& d.x_bits == 0
    &&& d.y_bits == 0
}

/// Turns a raw display into a display at position (0, 0).
fn parse_display(raw: RawDisplay) -> (r: AdvancementDisplay)
    ensures
        display_spec(r, raw),
{
    let ghost g = raw;
    let icon = AdvancementIcon {
        item: parse_resource_location(raw.icon.id.as_str()),
        count: match raw.icon.count {
            Some(c) => c,
            None => 1,
        },
        components: raw.icon.components,
    };
    let title = parse_text_component(&raw.title, raw.title_json.as_str());
    let description = parse_text_component(&raw.description, raw.description_json.as_str());
    let frame = parse_frame(&raw.frame);
    let background = match &raw.background {
        Some(b) => Some(parse_resource_location(b.as_str())),
        None => None,
    };
    AdvancementDisplay {
        icon,
        title,
        description,
        frame,
        background,
        show_toast: raw.show_toast,
        announce_to_chat: raw.announce_to_chat,
        hidden: raw.hidden,
        x_bits: 0,
        y_bits: 0,
    }
}

/// Turns a JSON value into criterion conditions: an object's `player` member is the player's
/// conditions and its other members the other fields; any other value gives no conditions.
fn parse_conditions(value: JsonValue) -> (r: CriterionConditions)
    ensures
        match value {
            JsonValue::Object(fields) => r.player == lookup(fields@, "player"@) && r.other@
                == without_name(fields@, "player"@),
            _ => r.player is None && r.other@.len() == 0,
        },
{
    match value {
        JsonValue::Object(fields) => {
            let ghost all = fields@;
            let player_name = "player".to_string();
            proof {
                vstd::string::to_string_from_display_ensures_for_str("player", player_name);
            }
            let mut rest = fields;
            let mut player: Option<JsonValue> = None;
            let mut other: Vec<(String, JsonValue)> = Vec::new();
            while rest.len() > 0
                invariant
                    player_name@ == "player"@,
                    other@ + without_name(rest@, "player"@) == without_name(all, "player"@),
                    player is None ==> lookup(all, "player"@) == lookup(rest@, "player"@),
                    player is Some ==> player == lookup(all, "player"@),
                decreases rest@.len(),
            {
                let ghost before = rest@;
                let (name, v) = rest.remove(0);
                assert(rest@ =~= before.drop_first());
                let ghost ob = other@;
                if name == player_name {
                    if player.is_none() {
                        player = Some(v);
                    }
                } else {
                    other.push((name, v));
                    assert(other@ + without_name(rest@, "player"@) =~= ob + without_name(
                        before,
                        "player"@,
                    ));
                }
            }
            CriterionConditions { player, other }
        },
        _ => CriterionConditions { player: None, other: Vec::new() },
    }
}

/// Whether `c` is the criterion a raw criterion describes.
pub open spec fn criterion_spec(c: AdvancementCriterion, raw: RawCriterion) -> bool {
    &&& c.trigger@ == parse_spec(raw.trigger@)
    &&& match (c.conditions, raw.conditions) {
        (None, None) => true,
        (Some(cond), Some(v)) => match v {
            JsonValue::Object(fields) => cond.player == lookup(fields@, "player"@)
                && cond.other@ == without_name(fields@, "player"@),
            _ => cond.player is None && cond.other@.len() == 0,
        },
        _ => false,
    }
}

/// Turns raw criteria into criteria, keeping names and order.
fn parse_criteria(raw: Vec<(String, RawCriterion)>) -> (r: Vec<(String, AdvancementCriterion)>)
    ensures
        r@.len() == raw@.len(),
        forall|i: int|
            0 <= i < r@.len() ==> (#[trigger] r@[i]).0@ == raw@[i].0@ && criterion_spec(
                r@[i].1,
                raw@[i].1,
            ),
{
    let ghost all = raw@;
    let mut rest = raw;
    let mut out: Vec<(String, AdvancementCriterion)> = Vec::new();
    while rest.len() > 0
        invariant
            out@.len() + rest@.len() == all.len(),
            rest@ == all.skip(out@.len() as int),
            forall|i: int|
                0 <= i < out@.len() ==> (#[trigger] out@[i]).0@ == all[i].0@ && criterion_spec(
                    out@[i].1,
                    all[i].1,
                ),
        decreases rest@.len(),
    {
        let ghost before = rest@;
        let (name, crit) = rest.remove(0);
        assert(before[0] == all[out@.len() as int]);
        assert(rest@ =~= all.skip((out@.len() + 1) as int));
        let trigger = parse_resource_location(crit.trigger.as_str());
        let conditions = match crit.conditions {
            Some(v) => Some(parse_conditions(v)),
            None => None,
        };
        out.push((name, AdvancementCriterion { trigger, conditions }));
    }
    out
}

/// Reads a list of identifiers.
fn parse_ids(v: &Vec<String>) -> (r: Vec<ResourceLocation>)
    ensures
        r@.len() == v@.len(),
        forall|i: int| 0 <= i < r@.len() ==> (#[trigger] r@[i])@ == parse_spec(v@[i]@),
{
    let mut r: Vec<ResourceLocation> = Vec::new();
    let mut i: usize = 0;
    while i < v.len()
        invariant
            0 <= i <= v@.len(),
            r@.len() == i,
            forall|k: int| 0 <= k < i ==> (#[trigger] r@[k])@ == parse_spec(v@[k]@),
        decreases v@.len() - i,
    {
        r.push(parse_resource_location(v[i].as_str()));
        i += 1;
    }
    r
}

/// Whether `r` are the rewards raw rewards describe: the experience, each recipe, the first loot
/// table and the function.
pub open spec fn rewards_spec(r: AdvancementRewards, raw: RawRewards) -> bool {
    &&& r.experience == raw.experience
    &&& r.recipes@.len() == match raw.recipes {
        Some(v) => v@.len(),
        None => 0,
    }
    &&& forall|i: int|
        0 <= i < r.recipes@.len() ==> (#[trigger] r.recipes@[i])@ == parse_spec(
            raw.recipes->Some_0@[i]@,
        )
    &&& match (r.loot, raw.loot) {
        (Some(l), Some(v)) => v@.len() > 0 && l@ == parse_spec(v@[0]@),
        (None, Some(v)) => v@.len() == 0,
        (None, None) => true,
        _ => false,
    }
    &&& match (r.function, raw.function) {
        (Some(f), Some(s)) => f@ == parse_spec(s@),
        (None, None) => true,
        _ => false,
    }
}

/// Turns raw rewards into rewards.
fn parse_rewards(raw: RawRewards) -> (r: AdvancementRewards)
    ensures
        rewards_spec(r, raw),
{
    let recipes = match &raw.recipes {
        Some(v) => parse_ids(v),
        None => Vec::new(),
    };
    let loot = match &raw.loot {
        Some(v) => if v.len() > 0 {
            Some(parse_resource_location(v[0].as_str()))
        } else {
            None
        },
        None => None,
    };
    let function = match &raw.function {
        Some(f) => Some(parse_resource_location(f.as_str())),
        None => None,
    };
    AdvancementRewards { experience: raw.experience, recipes, loot, function }
}

/// Turns an advancement file into an advancement entry. The identifier and the parent are read
/// in the vanilla namespace when they name none; the requirements default to all criteria.
pub fn parse_advancement(id: &str, raw: RawAdvancement) -> (r: AdvancementEntry)
    ensures
        r.id@ == parse_spec(id@),
        match (r.advancement.parent, raw.parent) {
            (Some(p), Some(s)) => p@ == parse_spec(s@),
            (None, None) => true,
            _ => false,
        },
        match (r.advancement.display, raw.display) {
            (Some(d), Some(rd)) => display_spec(d, rd),
            (None, None) => true,
            _ => false,
        },
        r.advancement.criteria@.len() == raw.criteria@.len(),
        forall|i: int|
            0 <= i < raw.criteria@.len() ==> (#[trigger] r.advancement.criteria@[i]).0@
                == raw.criteria@[i].0@ && criterion_spec(
                r.advancement.criteria@[i].1,
                raw.criteria@[i].1,
            ),
        r.advancement.requirements@ == match raw.requirements {
            Some(reqs) => reqs.deep_view(),
            None => each_alone(raw.criteria@.map_values(|c: (String, RawCriterion)| c.0@)),
        },
        match raw.rewards {
            Some(rr) => rewards_spec(r.advancement.rewards, rr),
            None => r.advancement.rewards.is_empty_spec(),
        },
        r.advancement.sends_telemetry_event == raw.sends_telemetry_event,
        match (r.advancement.display, raw.display) {
            (Some(d), Some(rd)) => (rd.frame matches Some(f) && f@ == "goal"@ ==> d.frame
                == AdvancementFrame::Goal) && (rd.frame matches Some(f) && f@ == "challenge"@
                ==> d.frame == AdvancementFrame::Challenge) && (!(rd.frame matches Some(f) && (f@
                == "goal"@ || f@ == "challenge"@)) ==> d.frame == AdvancementFrame::Task),
            _ => true,
        },
{
    let adv_id = parse_id(id);
    let parent = match &raw.parent {
        Some(p) => Some(parse_id(p.as_str())),
        None => None,
    };
    let ghost raw_display = raw.display;
    let display = match raw.display {
        Some(d) => Some(parse_display(d)),
        None => None,
    };
    proof {
        if raw_display is Some {
            lemma_frame_names(
                match raw_display->Some_0.frame {
                    Some(s) => Some(s@),
                    None => None,
                },
            );
        }
    }
    let ghost raw_criteria = raw.criteria@;
    let criteria = parse_criteria(raw.criteria);
    let keys = criteria_keys(&criteria);
    assert(keys.deep_view() =~= raw_criteria.map_values(|c: (String, RawCriterion)| c.0@));
    let requirements = match raw.requirements {
        Some(reqs) => AdvancementRequirements::new(reqs),
        None => AdvancementRequirements::all_of(keys),
    };
    let rewards = match raw.rewards {
        Some(rr) => parse_rewards(rr),
        None => AdvancementRewards::default(),
    };
    let advancement = Advancement {
        parent,
        display,
        rewards,
        criteria,
        requirements,
        sends_telemetry_event: raw.sends_telemetry_event,
    };
    AdvancementEntry::new(adv_id, advancement)
}

} // verus!
