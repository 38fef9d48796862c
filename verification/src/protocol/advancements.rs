use vstd::prelude::*;
use vstd::utf8::encode_utf8;

use crate::clock::current_time_millis;
use crate::protocol::client::{
    group_bytes, groups_bytes, groups_fit, id_fits, lemma_list_bytes_step, list_bytes,
    option_id_bytes, option_id_fits, strings_bytes,
};
use crate::protocol::codec::{varint_bytes, VarInt, WritingError};
use crate::protocol::ser::{
    be32, be64, string_bound, string_bytes, write_bool, write_i32_be, write_i64_be,
    write_resource_location, write_slice, write_string, write_var_int,
};
use crate::util::resource_location::{text_of, ResourceLocation};

verus! {

// ===== Byte layouts =====

/// The bytes of an item icon: its count, then (for a non-empty stack) its item and component
/// counts.
pub open spec fn icon_bytes(i: AdvancementIcon) -> Seq<u8> {
    varint_bytes(i.count as u32) + if i.count > 0 {
        (match i.item_id {
            Some(v) => varint_bytes(v.0 as u32),
            None => Seq::empty(),
        }) + varint_bytes(i.components_to_add as u32) + varint_bytes(
            i.components_to_remove as u32,
        )
    } else {
        Seq::empty()
    }
}

/// Whether the display flags ask for a background.
pub open spec fn has_background_flag(flags: i32) -> bool {
    flags & 1i32 != 0
}

/// The bytes of display information.
pub open spec fn display_bytes(d: AdvancementDisplay) -> Seq<u8> {
    d.title@ + d.description@ + icon_bytes(d.icon) + varint_bytes(d.frame.ordinal_spec() as u32)
        + be32(d.flags as u32) + (if has_background_flag(d.flags) {
        match d.background {
            Some(bg) => string_bytes(text_of(bg@)),
            None => Seq::empty(),
        }
    } else {
        Seq::empty()
    }) + be32(d.x_bits) + be32(d.y_bits)
}

/// The display's background, when written, fits in the protocol's bound.
pub open spec fn display_fits(d: AdvancementDisplay) -> bool {
    option_id_fits(d.background)
}

/// The bytes of an advancement.
pub open spec fn advancement_bytes(a: Advancement) -> Seq<u8> {
    option_id_bytes(a.parent) + (match a.display {
        Some(d) => seq![1u8] + display_bytes(d),
        None => seq![0u8],
    }) + varint_bytes(a.requirements@.len() as i32 as u32) + groups_bytes(
        a.requirements.deep_view(),
    ) + seq![if a.sends_telemetry_event {
        1u8
    } else {
        0u8
    }]
}

/// Every text of the advancement fits in the protocol's bounds.
pub open spec fn advancement_fits(a: Advancement) -> bool {
    &&& option_id_fits(a.parent)
    &&& (a.display matches Some(d) ==> display_fits(d))
    &&& groups_fit(a.requirements.deep_view())
}

/// The bytes of an advancement with its identifier.
pub open spec fn mapping_bytes(m: AdvancementMapping) -> Seq<u8> {
    string_bytes(text_of(m.id@)) + advancement_bytes(m.advancement)
}

/// Every text of the mapping fits in the protocol's bounds.
pub open spec fn mapping_fits(m: AdvancementMapping) -> bool {
    id_fits(m.id) && advancement_fits(m.advancement)
}

/// The bytes of one criterion's progress: its name, then its optional time.
pub open spec fn entry_bytes(e: CriterionProgressEntry) -> Seq<u8> {
    string_bytes(e.criterion@) + match e.progress {
        Some(t) => seq![1u8] + be64(t as u64),
        None => seq![0u8],
    }
}

/// The criterion name fits in the protocol's string bound.
pub open spec fn entry_fits(e: CriterionProgressEntry) -> bool {
    encode_utf8(e.criterion@).len() <= string_bound()
}

/// The bytes of an advancement's progress: the count of criteria, then each criterion.
pub open spec fn progress_bytes(p: AdvancementProgress) -> Seq<u8> {
    varint_bytes(p.criteria@.len() as i32 as u32) + list_bytes(
        p.criteria@,
        |e: CriterionProgressEntry| entry_bytes(e),
    )
}

/// Every criterion name of the progress fits in the protocol's string bound.
pub open spec fn progress_fits(p: AdvancementProgress) -> bool {
    forall|i: int| 0 <= i < p.criteria@.len() ==> entry_fits(#[trigger] p.criteria@[i])
}

/// The bytes of an advancement's progress with the advancement's identifier.
pub open spec fn progress_mapping_bytes(m: AdvancementProgressMapping) -> Seq<u8> {
    string_bytes(text_of(m.id@)) + progress_bytes(m.progress)
}

/// Every text of the progress mapping fits in the protocol's bounds.
pub open spec fn progress_mapping_fits(m: AdvancementProgressMapping) -> bool {
    id_fits(m.id) && progress_fits(m.progress)
}

/// The bytes of an identifier.
pub open spec fn id_bytes(id: ResourceLocation) -> Seq<u8> {
    string_bytes(text_of(id@))
}

/// The bytes of the whole packet body.
pub open spec fn update_bytes(p: CUpdateAdvancements) -> Seq<u8> {
    seq![if p.reset {
        1u8
    } else {
        0u8
    }] + varint_bytes(p.advancements@.len() as i32 as u32) + list_bytes(
        p.advancements@,
        |m: AdvancementMapping| mapping_bytes(m),
    ) + varint_bytes(p.identifiers_to_remove@.len() as i32 as u32) + list_bytes(
        p.identifiers_to_remove@,
        |id: ResourceLocation| id_bytes(id),
    ) + varint_bytes(p.progress@.len() as i32 as u32) + list_bytes(
        p.progress@,
        |m: AdvancementProgressMapping| progress_mapping_bytes(m),
    )
}

/// Every text of the packet fits in the protocol's bounds.
pub open spec fn update_fits(p: CUpdateAdvancements) -> bool {
    &&& forall|i: int|
        0 <= i < p.advancements@.len() ==> mapping_fits(#[trigger] p.advancements@[i])
    &&& forall|i: int|
        0 <= i < p.identifiers_to_remove@.len() ==> id_fits(
            #[trigger] p.identifiers_to_remove@[i],
        )
    &&& forall|i: int|
        0 <= i < p.progress@.len() ==> progress_mapping_fits(#[trigger] p.progress@[i])
}

// ===== Packet types =====

/// Sent by the server to update the client's advancement data.
#[derive(Debug)]
pub struct CUpdateAdvancements<'a> {
    /// Whether to reset/clear existing advancements before applying this update.
    pub reset: bool,
    /// Advancements to add or update.
    pub advancements: &'a [AdvancementMapping],
    /// Identifiers of advancements to remove.
    pub identifiers_to_remove: &'a [ResourceLocation],
    /// Progress updates for advancements.
    pub progress: &'a [AdvancementProgressMapping],
}

impl<'a> CUpdateAdvancements<'a> {
    /// Creates a new advancement update packet.
    pub fn new(
        reset: bool,
        advancements: &'a [AdvancementMapping],
        identifiers_to_remove: &'a [ResourceLocation],
        progress: &'a [AdvancementProgressMapping],
    ) -> (r: Self)
        ensures
            r.reset == reset,
            r.advancements == advancements,
            r.identifiers_to_remove == identifiers_to_remove,
            r.progress == progress,
    {
        Self { reset, advancements, identifiers_to_remove, progress }
    }

    /// Creates a packet that resets all advancements and sends new ones.
    pub fn reset_with(
        advancements: &'a [AdvancementMapping],
        progress: &'a [AdvancementProgressMapping],
    ) -> (r: Self)
        ensures
            r.reset,
            r.advancements == advancements,
            r.identifiers_to_remove@.len() == 0,
            r.progress == progress,
    {
        Self { reset: true, advancements, identifiers_to_remove: &[], progress }
    }

    /// Creates a packet that adds/updates advancements without reset.
    pub fn update(
        advancements: &'a [AdvancementMapping],
        progress: &'a [AdvancementProgressMapping],
    ) -> (r: Self)
        ensures
            !r.reset,
            r.advancements == advancements,
            r.identifiers_to_remove@.len() == 0,
            r.progress == progress,
    {
        Self { reset: false, advancements, identifiers_to_remove: &[], progress }
    }

    /// Appends the packet's body.
    #[verifier::rlimit(40)]
    pub fn write_packet_data(&self, out: &mut Vec<u8>) -> (r: Result<(), WritingError>)
        requires
            update_fits(*self),
        ensures
            r is Ok,
            final(out)@ == old(out)@ + update_bytes(*self),
    {
        // Reset flag
        write_bool(out, self.reset);
        // Advancements to add/update
        write_var_int(out, &VarInt(self.advancements.len() as i32));
        write_mappings(out, self.advancements);
        // Advancements to remove
        write_var_int(out, &VarInt(self.identifiers_to_remove.len() as i32));
        write_ids(out, self.identifiers_to_remove);
        // Progress updates
        write_var_int(out, &VarInt(self.progress.len() as i32));
        write_progress_mappings(out, self.progress);
        assert(out@ =~= old(out)@ + update_bytes(*self));
        Ok(())
    }
}

/// Appends advancements with their identifiers, one after the other.
fn write_mappings(out: &mut Vec<u8>, items: &[AdvancementMapping])
    requires
        forall|i: int| 0 <= i < items@.len() ==> mapping_fits(#[trigger] items@[i]),
    ensures
        final(out)@ == old(out)@ + list_bytes(items@, |m: AdvancementMapping| mapping_bytes(m)),
{
    let mut i: usize = 0;
    while i < items.len()
        invariant
            0 <= i <= items@.len(),
            forall|k: int| 0 <= k < items@.len() ==> mapping_fits(#[trigger] items@[k]),
            out@ == old(out)@ + list_bytes(
                items@.take(i as int),
                |m: AdvancementMapping| mapping_bytes(m),
            ),
        decreases items@.len() - i,
    {
        items[i].write(out);
        proof {
            lemma_list_bytes_step(items@, i as int, |m: AdvancementMapping| mapping_bytes(m));
        }
        i += 1;
    }
    assert(items@.take(items@.len() as int) =~= items@);
}

/// Appends identifiers, one after the other.
fn write_ids(out: &mut Vec<u8>, items: &[ResourceLocation])
    requires
        forall|i: int| 0 <= i < items@.len() ==> id_fits(#[trigger] items@[i]),
    ensures
        final(out)@ == old(out)@ + list_bytes(items@, |id: ResourceLocation| id_bytes(id)),
{
    let mut i: usize = 0;
    while i < items.len()
        invariant
            0 <= i <= items@.len(),
            forall|k: int| 0 <= k < items@.len() ==> id_fits(#[trigger] items@[k]),
            out@ == old(out)@ + list_bytes(items@.take(i as int), |id: ResourceLocation| id_bytes(id)),
        decreases items@.len() - i,
    {
        write_resource_location(out, &items[i]);
        proof {
            lemma_list_bytes_step(items@, i as int, |id: ResourceLocation| id_bytes(id));
        }
        i += 1;
    }
    assert(items@.take(items@.len() as int) =~= items@);
}

/// Appends progress mappings, one after the other.
fn write_progress_mappings(out: &mut Vec<u8>, items: &[AdvancementProgressMapping])
    requires
        forall|i: int| 0 <= i < items@.len() ==> progress_mapping_fits(#[trigger] items@[i]),
    ensures
        final(out)@ == old(out)@ + list_bytes(
            items@,
            |m: AdvancementProgressMapping| progress_mapping_bytes(m),
        ),
{
    let mut i: usize = 0;
    while i < items.len()
        invariant
            0 <= i <= items@.len(),
            forall|k: int| 0 <= k < items@.len() ==> progress_mapping_fits(#[trigger] items@[k]),
            out@ == old(out)@ + list_bytes(
                items@.take(i as int),
                |m: AdvancementProgressMapping| progress_mapping_bytes(m),
            ),
        decreases items@.len() - i,
    {
        items[i].write(out);
        proof {
            lemma_list_bytes_step(
                items@,
                i as int,
                |m: AdvancementProgressMapping| progress_mapping_bytes(m),
            );
        }
        i += 1;
    }
    assert(items@.take(items@.len() as int) =~= items@);
}

/// An advancement with its identifier.
#[derive(Debug)]
pub struct AdvancementMapping {
    /// The unique identifier for this advancement.
    pub id: ResourceLocation,
    /// The advancement data.
    pub advancement: Advancement,
}

impl AdvancementMapping {
    /// Creates a new advancement mapping.
    pub fn new(id: ResourceLocation, advancement: Advancement) -> (r: Self)
        ensures
            r.id == id,
            r.advancement == advancement,
    {
        Self { id, advancement }
    }

    /// Appends the identifier, then the advancement.
    pub fn write(&self, out: &mut Vec<u8>)
        requires
            mapping_fits(*self),
        ensures
            final(out)@ == old(out)@ + mapping_bytes(*self),
    {
        write_resource_location(out, &self.id);
        self.advancement.write(out);
        assert(out@ =~= old(out)@ + mapping_bytes(*self));
    }
}

/// Advancement data sent to the client.
#[derive(Debug)]
pub struct Advancement {
    /// The parent advancement ID, if any.
    pub parent: Option<ResourceLocation>,
    /// Display information, if this advancement should be visible in the UI.
    pub display: Option<AdvancementDisplay>,
    /// The requirements for completing this advancement.
    pub requirements: Vec<Vec<String>>,
    /// Whether completing this advancement sends telemetry data.
    pub sends_telemetry_event: bool,
}

impl Advancement {
    /// Creates a new advancement with no parent or display.
    pub fn new(requirements: Vec<Vec<String>>, sends_telemetry_event: bool) -> (r: Self)
        ensures
            r.parent is None,
            r.display is None,
            r.requirements == requirements,
            r.sends_telemetry_event == sends_telemetry_event,
    {
        Self { parent: None, display: None, requirements, sends_telemetry_event }
    }

    /// Creates a root advancement (no parent) with display.
    pub fn root(display: AdvancementDisplay, requirements: Vec<Vec<String>>) -> (r: Self)
        ensures
            r.parent is None,
            r.display == Some(display),
            r.requirements == requirements,
            !r.sends_telemetry_event,
    {
        Self { parent: None, display: Some(display), requirements, sends_telemetry_event: false }
    }

    /// Creates a child advancement with display.
    pub fn child(
        parent: ResourceLocation,
        display: AdvancementDisplay,
        requirements: Vec<Vec<String>>,
    ) -> (r: Self)
        ensures
            r.parent == Some(parent),
            r.display == Some(display),
            r.requirements == requirements,
            !r.sends_telemetry_event,
    {
        Self {
            parent: Some(parent),
            display: Some(display),
            requirements,
            sends_telemetry_event: false,
        }
    }

    /// Appends the parent, the display, the requirement groups and the telemetry flag.
    pub fn write(&self, out: &mut Vec<u8>)
        requires
            advancement_fits(*self),
        ensures
            final(out)@ == old(out)@ + advancement_bytes(*self),
    {
        // Parent
        write_option_parent(out, &self.parent);
        // Display
        write_option_display(out, &self.display);
        // Requirements (list of lists of strings)
        write_var_int(out, &VarInt(self.requirements.len() as i32));
        write_groups(out, &self.requirements);
        // Sends telemetry event
        write_bool(out, self.sends_telemetry_event);
        assert(out@ =~= old(out)@ + advancement_bytes(*self));
    }
}

/// Appends an optional parent identifier.
fn write_option_parent(out: &mut Vec<u8>, parent: &Option<ResourceLocation>)
    requires
        option_id_fits(*parent),
    ensures
        final(out)@ == old(out)@ + option_id_bytes(*parent),
{
    match parent {
        Some(p) => {
            write_bool(out, true);
            write_resource_location(out, p);
        },
        None => {
            write_bool(out, false);
        },
    }
    assert(out@ =~= old(out)@ + option_id_bytes(*parent));
}

/// Appends optional display information.
fn write_option_display(out: &mut Vec<u8>, display: &Option<AdvancementDisplay>)
    requires
        *display matches Some(d) ==> display_fits(d),
    ensures
        final(out)@ == old(out)@ + match *display {
            Some(d) => seq![1u8] + display_bytes(d),
            None => seq![0u8],
        },
{
    match display {
        Some(d) => {
            write_bool(out, true);
            d.write(out);
        },
        None => {
            write_bool(out, false);
        },
    }
    assert(out@ =~= old(out)@ + match *display {
        Some(d) => seq![1u8] + display_bytes(d),
        None => seq![0u8],
    });
}

/// Appends requirement groups, one after the other.
fn write_groups(out: &mut Vec<u8>, requirements: &Vec<Vec<String>>)
    requires
        groups_fit(requirements.deep_view()),
    ensures
        final(out)@ == old(out)@ + groups_bytes(requirements.deep_view()),
{
    let ghost groups = requirements.deep_view();
    let mut i: usize = 0;
    while i < requirements.len()
        invariant
            0 <= i <= groups.len(),
            groups == requirements.deep_view(),
            groups_fit(groups),
            out@ == old(out)@ + list_bytes(groups.take(i as int), |g: Seq<Seq<char>>| group_bytes(g)),
        decreases groups.len() - i,
    {
        let group = &requirements[i];
        assert(group.deep_view() == groups[i as int]);
        write_group(out, group, Ghost(groups), Ghost(i as int));
        proof {
            lemma_list_bytes_step(groups, i as int, |g: Seq<Seq<char>>| group_bytes(g));
        }
        i += 1;
    }
    assert(groups.take(groups.len() as int) =~= groups);
}

/// Appends one requirement group: its count, then its criterion names.
fn write_group(
    out: &mut Vec<u8>,
    group: &Vec<String>,
    Ghost(groups): Ghost<Seq<Seq<Seq<char>>>>,
    Ghost(i): Ghost<int>,
)
    requires
        0 <= i < groups.len(),
        groups_fit(groups),
        group.deep_view() == groups[i],
    ensures
        final(out)@ == old(out)@ + group_bytes(group.deep_view()),
{
    write_var_int(out, &VarInt(group.len() as i32));
    let ghost start = out@;
    let ghost g = group.deep_view();
    let mut j: usize = 0;
    while j < group.len()
        invariant
            0 <= i < groups.len(),
            g == groups[i],
            g == group.deep_view(),
            groups_fit(groups),
            0 <= j <= g.len(),
            out@ == start + list_bytes(g.take(j as int), |n: Seq<char>| string_bytes(n)),
        decreases g.len() - j,
    {
        assert(group[j as int]@ == g[j as int]);
        assert(encode_utf8(groups[i][j as int]).len() <= string_bound());
        write_string(out, group[j].as_str());
        proof {
            lemma_list_bytes_step(g, j as int, |n: Seq<char>| string_bytes(n));
        }
        j += 1;
    }
    assert(g.take(g.len() as int) =~= g);
    assert(out@ =~= old(out)@ + group_bytes(group.deep_view()));
}

/// Display information for an advancement.
#[derive(Debug)]
pub struct AdvancementDisplay {
    /// The title of the advancement, as the encoded bytes of its text component.
    pub title: Vec<u8>,
    /// The description of the advancement, as the encoded bytes of its text component.
    pub description: Vec<u8>,
    /// The icon item (as slot data).
    pub icon: AdvancementIcon,
    /// The frame type (task, goal, challenge).
    pub frame: AdvancementFrame,
    /// Flags for display options.
    pub flags: i32,
    /// Background texture for root advancements.
    pub background: Option<ResourceLocation>,
    /// X position in the tab, as the bit pattern of a 32-bit float.
    pub x_bits: u32,
    /// Y position in the tab, as the bit pattern of a 32-bit float.
    pub y_bits: u32,
}

impl AdvancementDisplay {
    /// Appends the title, description, icon, frame, flags, background and position.
    pub fn write(&self, out: &mut Vec<u8>)
        requires
            display_fits(*self),
        ensures
            final(out)@ == old(out)@ + display_bytes(*self),
    {
        // Title
        write_slice(out, self.title.as_slice());
        // Description
        write_slice(out, self.description.as_slice());
        // Icon (item stack)
        self.icon.write(out);
        // Frame type
        write_var_int(out, &VarInt(self.frame.ordinal()));
        // Flags
        write_i32_be(out, self.flags);
        let ghost before_bg = out@;
        // Background (only if flag bit 0 is set)
        if self.flags & 0x01 != 0 {
            if let Some(bg) = &self.background {
                write_resource_location(out, bg);
            }
        }
        // Position
        write_u32_be(out, self.x_bits);
        write_u32_be(out, self.y_bits);
        assert(out@ =~= old(out)@ + display_bytes(*self));
    }
}

/// Appends a 32-bit number in big-endian order.
fn write_u32_be(out: &mut Vec<u8>, v: u32)
    ensures
        final(out)@ == old(out)@ + be32(v),
{
    write_i32_be(out, v as i32);
    assert((v as i32) as u32 == v) by (bit_vector);
}

/// Icon for an advancement (simplified item representation).
#[derive(Debug, Clone, Copy, PartialEq, Eq)]
pub struct AdvancementIcon {
    /// The item count (0 for empty).
    pub count: i32,
    /// The item ID if count > 0.
    pub item_id: Option<VarInt>,
    /// Number of components to add.
    pub components_to_add: i32,
    /// Number of components to remove.
    pub components_to_remove: i32,
}

impl AdvancementIcon {
    /// Creates an empty icon.
    pub fn empty() -> (r: Self)
        ensures
            r == (AdvancementIcon {
                count: 0,
                item_id: None,
                components_to_add: 0,
                components_to_remove: 0,
            }),
    {
        Self { count: 0, item_id: None, components_to_add: 0, components_to_remove: 0 }
    }

    /// Creates an icon with just an item ID.
    pub fn item(item_id: i32) -> (r: Self)
        ensures
            r == (AdvancementIcon {
                count: 1,
                item_id: Some(VarInt(item_id)),
                components_to_add: 0,
                components_to_remove: 0,
            }),
    {
        Self {
            count: 1,
            item_id: Some(VarInt(item_id)),
            components_to_add: 0,
            components_to_remove: 0,
        }
    }

    /// Appends the count and, for a non-empty stack, the item and component counts.
    pub fn write(&self, out: &mut Vec<u8>)
        ensures
            final(out)@ == old(out)@ + icon_bytes(*self),
    {
        write_var_int(out, &VarInt(self.count));
        if self.count > 0 {
            if let Some(item_id) = &self.item_id {
                write_var_int(out, item_id);
            }
            write_var_int(out, &VarInt(self.components_to_add));
            write_var_int(out, &VarInt(self.components_to_remove));
            // Component data itself is not written.
        }
        assert(out@ =~= old(out)@ + icon_bytes(*self));
    }
}

/// The frame of an advancement as the protocol numbers it.
#[derive(Debug, Clone, Copy, PartialEq, Eq)]
pub enum AdvancementFrame {
    Task,
    Goal,
    Challenge,
}

impl Default for AdvancementFrame {
    fn default() -> (r: Self)
        ensures
            r == AdvancementFrame::Task,
    {
        AdvancementFrame::Task
    }
}

impl AdvancementFrame {
    /// The protocol number of a frame.
    pub open spec fn ordinal_spec(self) -> i32 {
        match self {
            AdvancementFrame::Task => 0,
            AdvancementFrame::Goal => 1,
            AdvancementFrame::Challenge => 2,
        }
    }

    /// Returns the protocol number of this frame.
    pub fn ordinal(self) -> (r: i32)
        ensures
            r == self.ordinal_spec(),
            self == AdvancementFrame::Task ==> r == 0,
            self == AdvancementFrame::Goal ==> r == 1,
            self == AdvancementFrame::Challenge ==> r == 2,
    {
        match self {
            AdvancementFrame::Task => 0,
            AdvancementFrame::Goal => 1,
            AdvancementFrame::Challenge => 2,
        }
    }

    /// Returns the frame with the given protocol number.
    pub fn from_ordinal(ordinal: i32) -> (r: Option<Self>)
        ensures
            r matches Some(f) ==> f.ordinal_spec() == ordinal,
            r is None <==> !(0 <= ordinal <= 2),
            ordinal == 0 ==> r == Some(AdvancementFrame::Task),
            ordinal == 1 ==> r == Some(AdvancementFrame::Goal),
            ordinal == 2 ==> r == Some(AdvancementFrame::Challenge),
    {
        match ordinal {
            0 => Some(AdvancementFrame::Task),
            1 => Some(AdvancementFrame::Goal),
            2 => Some(AdvancementFrame::Challenge),
            _ => None,
        }
    }
}

/// The frame numbers of the protocol: a task is 0, a goal 1 and a challenge 2.
pub proof fn lemma_packet_frame_numbers()
    ensures
        AdvancementFrame::Task.ordinal_spec() == 0,
        AdvancementFrame::Goal.ordinal_spec() == 1,
        AdvancementFrame::Challenge.ordinal_spec() == 2,
{
}

/// Progress mapping for an advancement.
#[derive(Debug)]
pub struct AdvancementProgressMapping {
    /// The advancement identifier.
    pub id: ResourceLocation,
    /// The progress data.
    pub progress: AdvancementProgress,
}

impl AdvancementProgressMapping {
    /// Creates a new progress mapping.
    pub fn new(id: ResourceLocation, progress: AdvancementProgress) -> (r: Self)
        ensures
            r.id == id,
            r.progress == progress,
    {
        Self { id, progress }
    }

    /// Appends the identifier, then the progress.
    pub fn write(&self, out: &mut Vec<u8>)
        requires
            progress_mapping_fits(*self),
        ensures
            final(out)@ == old(out)@ + progress_mapping_bytes(*self),
    {
        write_resource_location(out, &self.id);
        self.progress.write(out);
        assert(out@ =~= old(out)@ + progress_mapping_bytes(*self));
    }
}

/// Progress for a single advancement.
#[derive(Debug)]
pub struct AdvancementProgress {
    /// Progress for each criterion.
    pub criteria: Vec<CriterionProgressEntry>,
}

impl Default for AdvancementProgress {
    fn default() -> (r: Self)
        ensures
            r.criteria@.len() == 0,
    {
        Self::empty()
    }
}

impl AdvancementProgress {
    /// Creates empty progress.
    pub fn empty() -> (r: Self)
        ensures
            r.criteria@.len() == 0,
    {
        Self { criteria: Vec::new() }
    }

    /// Creates progress with the given criterion entries.
    pub fn with_criteria(criteria: Vec<CriterionProgressEntry>) -> (r: Self)
        ensures
            r.criteria == criteria,
    {
        Self { criteria }
    }

    /// Creates progress marking all given criteria as done, all at one same time.
    pub fn all_done(criterion_names: &[String]) -> (r: Self)
        ensures
            r.criteria@.len() == criterion_names@.len(),
            forall|i: int|
                0 <= i < r.criteria@.len() ==> (#[trigger] r.criteria@[i]).criterion@
                    == criterion_names@[i]@,
            forall|i: int| 0 <= i < r.criteria@.len() ==> (#[trigger] r.criteria@[i]).progress is Some,
            forall|i: int, j: int|
                0 <= i < r.criteria@.len() && 0 <= j < r.criteria@.len() ==> (
                #[trigger] r.criteria@[i]).progress == (#[trigger] r.criteria@[j]).progress,
    {
        let now = current_time_millis();
        let mut criteria: Vec<CriterionProgressEntry> = Vec::new();
        let mut i: usize = 0;
        while i < criterion_names.len()
            invariant
                0 <= i <= criterion_names@.len(),
                criteria@.len() == i,
                forall|k: int|
                    0 <= k < i ==> (#[trigger] criteria@[k]).criterion@ == criterion_names@[k]@,
                forall|k: int| 0 <= k < i ==> (#[trigger] criteria@[k]).progress == Some(now),
            decreases criterion_names@.len() - i,
        {
            criteria.push(
                CriterionProgressEntry {
                    criterion: criterion_names[i].clone(),
                    progress: Some(now),
                },
            );
            i += 1;
        }
        Self { criteria }
    }

    /// Appends the count of criteria, then each criterion's name and optional time.
    pub fn write(&self, out: &mut Vec<u8>)
        requires
            progress_fits(*self),
        ensures
            final(out)@ == old(out)@ + progress_bytes(*self),
    {
        write_var_int(out, &VarInt(self.criteria.len() as i32));
        let ghost start = out@;
        let mut i: usize = 0;
        while i < self.criteria.len()
            invariant
                0 <= i <= self.criteria@.len(),
                progress_fits(*self),
                out@ == start + list_bytes(
                    self.criteria@.take(i as int),
                    |e: CriterionProgressEntry| entry_bytes(e),
                ),
            decreases self.criteria@.len() - i,
        {
            self.criteria[i].write(out);
            proof {
                lemma_list_bytes_step(
                    self.criteria@,
                    i as int,
                    |e: CriterionProgressEntry| entry_bytes(e),
                );
            }
            i += 1;
        }
        assert(self.criteria@.take(self.criteria@.len() as int) =~= self.criteria@);
        assert(out@ =~= old(out)@ + progress_bytes(*self));
    }
}

/// Progress entry for a single criterion.
#[derive(Debug)]
pub struct CriterionProgressEntry {
    /// The criterion name.
    pub criterion: String,
    /// The time when this criterion was achieved (Unix timestamp in millis), or `None` if not achieved.
    pub progress: Option<i64>,
}

impl CriterionProgressEntry {
    /// Creates a criterion entry that is not yet achieved.
    pub fn not_achieved(criterion: String) -> (r: Self)
        ensures
            r.criterion == criterion,
            r.progress is None,
    {
        Self { criterion, progress: None }
    }

    /// Creates a criterion entry that is achieved at the given time.
    pub fn achieved_at(criterion: String, time: i64) -> (r: Self)
        ensures
            r.criterion == criterion,
            r.progress == Some(time),
    {
        Self { criterion, progress: Some(time) }
    }

    /// Creates a criterion entry that is achieved now.
    pub fn achieved_now(criterion: String) -> (r: Self)
        ensures
            r.criterion == criterion,
            r.progress is Some,
    {
        let now = current_time_millis();
        Self { criterion, progress: Some(now) }
    }

    /// Appends the name, then the optional time.
    pub fn write(&self, out: &mut Vec<u8>)
        requires
            entry_fits(*self),
        ensures
            final(out)@ == old(out)@ + entry_bytes(*self),
    {
        write_string(out, self.criterion.as_str());
        match self.progress {
            Some(time) => {
                write_bool(out, true);
                write_i64_be(out, time);
            },
            None => {
                write_bool(out, false);
            },
        }
        assert(out@ =~= old(out)@ + entry_bytes(*self));
    }
}

} // verus!
