use vstd::prelude::*;
use vstd::utf8::encode_utf8;

use crate::protocol::codec::{varint_bytes, VarInt, WritingError};
use crate::protocol::ser::{
    be32, be64, bool_byte, string_bound, string_bytes, write_bool, write_i32_be, write_i64_be,
    write_resource_location, write_slice, write_string, write_var_int,
};
use crate::util::resource_location::{text_of, ResourceLocation};

verus! {

// ===== Byte layouts =====

/// The bytes of an optional identifier: a presence flag, then the identifier when present.
pub open spec fn option_id_bytes(o: Option<ResourceLocation>) -> Seq<u8> {
    match o {
        Some(id) => seq![1u8] + string_bytes(text_of(id@)),
        None => seq![0u8],
    }
}

/// The identifier text fits in the protocol's bound.
pub open spec fn id_fits(id: ResourceLocation) -> bool {
    encode_utf8(text_of(id@)).len() <= ResourceLocation::MAX_SIZE
}

/// The optional identifier fits in the protocol's bound.
pub open spec fn option_id_fits(o: Option<ResourceLocation>) -> bool {
    o matches Some(id) ==> id_fits(id)
}

/// The bytes of the items of a list, one after the other, without a count.
pub open spec fn list_bytes<T>(items: Seq<T>, f: spec_fn(T) -> Seq<u8>) -> Seq<u8>
    decreases items.len(),
{
    if items.len() == 0 {
        Seq::empty()
    } else {
        list_bytes(items.drop_last(), f) + f(items.last())
    }
}

/// Adding an item to a prefix of a list adds that item's bytes.
pub proof fn lemma_list_bytes_step<T>(items: Seq<T>, i: int, f: spec_fn(T) -> Seq<u8>)
    requires
        0 <= i < items.len(),
    ensures
        list_bytes(items.take(i + 1), f) == list_bytes(items.take(i), f) + f(items[i]),
{
    assert(items.take(i + 1).drop_last() =~= items.take(i));
}

/// The bytes of a list of strings, one after the other, without a count.
pub open spec fn strings_bytes(names: Seq<Seq<char>>) -> Seq<u8> {
    list_bytes(names, |n: Seq<char>| string_bytes(n))
}

/// The bytes of one requirement group: its count, then its criterion names.
pub open spec fn group_bytes(group: Seq<Seq<char>>) -> Seq<u8> {
    varint_bytes(group.len() as i32 as u32) + strings_bytes(group)
}

/// The bytes of requirement groups, one after the other, without a count.
pub open spec fn groups_bytes(groups: Seq<Seq<Seq<char>>>) -> Seq<u8> {
    list_bytes(groups, |g: Seq<Seq<char>>| group_bytes(g))
}

/// Every criterion name of the groups fits in the protocol's string bound.
pub open spec fn groups_fit(groups: Seq<Seq<Seq<char>>>) -> bool {
    forall|i: int, j: int|
        0 <= i < groups.len() && 0 <= j < groups[i].len() ==> encode_utf8(
            #[trigger] groups[i][j],
        ).len() <= string_bound()
}

// ===== Recipe book packets =====

/// Sent by the server to place a ghost recipe in the crafting grid.
/// This shows the recipe ingredients as ghost items in the crafting UI.
#[derive(Debug)]
pub struct CPlaceGhostRecipe {
    /// The window ID of the crafting table/inventory
    pub window_id: VarInt,
    /// The recipe to display
    pub recipe: ResourceLocation,
}

impl CPlaceGhostRecipe {
    pub fn new(window_id: i32, recipe: ResourceLocation) -> (r: Self)
        ensures
            r.window_id.0 == window_id,
            r.recipe == recipe,
    {
        Self { window_id: VarInt(window_id), recipe }
    }
}

/// Sent by the server to unlock recipes for the player.
#[derive(Debug)]
pub struct CRecipeBookAdd {
    pub entries: Vec<RecipeBookEntry>,
    pub replace: bool,
}

/// The entry that unlocking recipe `id` sends: only its display identifier is set.
pub open spec fn plain_entry(e: RecipeBookEntry, id: ResourceLocation) -> bool {
    &&& e.recipe_id.0 == 0
    &&& e.display_id == id
    &&& e.group_id.0 == 0
    &&& e.category.0 == 0
    &&& !e.has_ingredients
    &&& e.ingredients@.len() == 0
    &&& e.flags.flag_bits() == 0
}

/// One plain entry per recipe identifier, in order.
fn plain_entries(recipe_ids: Vec<ResourceLocation>) -> (r: Vec<RecipeBookEntry>)
    ensures
        r@.len() == recipe_ids@.len(),
        forall|i: int| 0 <= i < r@.len() ==> plain_entry(#[trigger] r@[i], recipe_ids@[i]),
{
    let mut entries: Vec<RecipeBookEntry> = Vec::new();
    let mut i: usize = 0;
    while i < recipe_ids.len()
        invariant
            0 <= i <= recipe_ids@.len(),
            entries@.len() == i,
            forall|k: int| 0 <= k < i ==> plain_entry(#[trigger] entries@[k], recipe_ids@[k]),
        decreases recipe_ids@.len() - i,
    {
        let id = recipe_ids[i].clone();
        entries.push(
            RecipeBookEntry {
                recipe_id: VarInt(0),  // Recipe display ID from registry
                display_id: id,
                group_id: VarInt(0),
                category: VarInt(0),
                has_ingredients: false,
                ingredients: Vec::new(),
                flags: RecipeBookEntryFlags::default(),
            },
        );
        i += 1;
    }
    entries
}

impl CRecipeBookAdd {
    pub fn new(entries: Vec<RecipeBookEntry>, replace: bool) -> (r: Self)
        ensures
            r.entries == entries,
            r.replace == replace,
    {
        Self { entries, replace }
    }

    /// Creates a packet to unlock new recipes (add to existing)
    pub fn add_recipes(recipe_ids: Vec<ResourceLocation>) -> (r: Self)
        ensures
            !r.replace,
            r.entries@.len() == recipe_ids@.len(),
            forall|i: int|
                0 <= i < r.entries@.len() ==> plain_entry(#[trigger] r.entries@[i], recipe_ids@[i]),
    {
        let entries = plain_entries(recipe_ids);
        Self::new(entries, false)
    }

    /// Creates a packet to replace all recipes (used on login)
    pub fn init_recipes(recipe_ids: Vec<ResourceLocation>) -> (r: Self)
        ensures
            r.replace,
            r.entries@.len() == recipe_ids@.len(),
            forall|i: int|
                0 <= i < r.entries@.len() ==> plain_entry(#[trigger] r.entries@[i], recipe_ids@[i]),
    {
        let entries = plain_entries(recipe_ids);
        Self::new(entries, true)
    }
}

#[derive(Debug)]
pub struct RecipeBookEntry {
    pub recipe_id: VarInt,
    pub display_id: ResourceLocation,
    pub group_id: VarInt,
    pub category: VarInt,
    pub has_ingredients: bool,
    pub ingredients: Vec<RecipeIngredient>,
    pub flags: RecipeBookEntryFlags,
}

#[derive(Debug)]
pub struct RecipeIngredient {
    pub items: Vec<VarInt>,
}

#[derive(Debug, Clone, Copy, PartialEq, Eq)]
pub struct RecipeBookEntryFlags {
    flags: u8,
}

impl Default for RecipeBookEntryFlags {
    fn default() -> (r: Self)
        ensures
            r.flag_bits() == 0,
    {
        Self { flags: 0 }
    }
}

impl RecipeBookEntryFlags {
    /// The flag bits.
    pub closed spec fn flag_bits(&self) -> u8 {
        self.flags
    }

    /// Bit 0 marks an unlocked recipe, bit 1 a highlighted one.
    pub fn new(unlocked: bool, highlighted: bool) -> (r: Self)
        ensures
            r.flag_bits() == (if unlocked { 1u8 } else { 0u8 }) + (if highlighted { 2u8 } else { 0u8 }),
    {
        let mut flags: u8 = 0;
        if unlocked {
            flags = flags + 1;
        }
        if highlighted {
            flags = flags + 2;
        }
        Self { flags }
    }

    /// The flag bits.
    pub fn bits(&self) -> (r: u8)
        ensures
            r == self.flag_bits(),
    {
        self.flags
    }
}

/// Sent by the server to remove/lock recipes for the player.
#[derive(Debug)]
pub struct CRecipeBookRemove {
    pub recipe_ids: Vec<VarInt>,
}

impl CRecipeBookRemove {
    pub fn new(recipe_ids: Vec<VarInt>) -> (r: Self)
        ensures
            r.recipe_ids == recipe_ids,
    {
        Self { recipe_ids }
    }
}

/// Sent by the server to set recipe book settings for the player.
#[derive(Debug, Clone, Copy, PartialEq, Eq)]
pub struct CRecipeBookSettings {
    pub crafting_recipe_book_open: bool,
    pub crafting_recipe_book_filter_active: bool,
    pub furnace_recipe_book_open: bool,
    pub furnace_recipe_book_filter_active: bool,
    pub blast_furnace_recipe_book_open: bool,
    pub blast_furnace_recipe_book_filter_active: bool,
    pub smoker_recipe_book_open: bool,
    pub smoker_recipe_book_filter_active: bool,
}

impl CRecipeBookSettings {
    pub fn new() -> (r: Self)
        ensures
            !r.crafting_recipe_book_open && !r.crafting_recipe_book_filter_active,
            !r.furnace_recipe_book_open && !r.furnace_recipe_book_filter_active,
            !r.blast_furnace_recipe_book_open && !r.blast_furnace_recipe_book_filter_active,
            !r.smoker_recipe_book_open && !r.smoker_recipe_book_filter_active,
    {
        Self {
            crafting_recipe_book_open: false,
            crafting_recipe_book_filter_active: false,
            furnace_recipe_book_open: false,
            furnace_recipe_book_filter_active: false,
            blast_furnace_recipe_book_open: false,
            blast_furnace_recipe_book_filter_active: false,
            smoker_recipe_book_open: false,
            smoker_recipe_book_filter_active: false,
        }
    }

    pub fn with_crafting(self, open: bool, filter: bool) -> (r: Self)
        ensures
            r == (Self {
                crafting_recipe_book_open: open,
                crafting_recipe_book_filter_active: filter,
                ..self
            }),
    {
        let mut s = self;
        s.crafting_recipe_book_open = open;
        s.crafting_recipe_book_filter_active = filter;
        s
    }

    pub fn with_furnace(self, open: bool, filter: bool) -> (r: Self)
        ensures
            r == (Self {
                furnace_recipe_book_open: open,
                furnace_recipe_book_filter_active: filter,
                ..self
            }),
    {
        let mut s = self;
        s.furnace_recipe_book_open = open;
        s.furnace_recipe_book_filter_active = filter;
        s
    }

    pub fn with_blast_furnace(self, open: bool, filter: bool) -> (r: Self)
        ensures
            r == (Self {
                blast_furnace_recipe_book_open: open,
                blast_furnace_recipe_book_filter_active: filter,
                ..self
            }),
    {
        let mut s = self;
        s.blast_furnace_recipe_book_open = open;
        s.blast_furnace_recipe_book_filter_active = filter;
        s
    }

    pub fn with_smoker(self, open: bool, filter: bool) -> (r: Self)
        ensures
            r == (Self { smoker_recipe_book_open: open, smoker_recipe_book_filter_active: filter, ..self }),
    {
        let mut s = self;
        s.smoker_recipe_book_open = open;
        s.smoker_recipe_book_filter_active = filter;
        s
    }
}

impl Default for CRecipeBookSettings {
    fn default() -> (r: Self)
        ensures
            !r.crafting_recipe_book_open && !r.crafting_recipe_book_filter_active,
            !r.furnace_recipe_book_open && !r.furnace_recipe_book_filter_active,
            !r.blast_furnace_recipe_book_open && !r.blast_furnace_recipe_book_filter_active,
            !r.smoker_recipe_book_open && !r.smoker_recipe_book_filter_active,
    {
        Self::new()
    }
}

// ===== Advancement tab selection =====

/// Sent by the server to select a specific advancement tab for the client.
#[derive(Debug)]
pub struct CSelectAdvancementTab {
    /// The identifier of the tab to select, or `None` to close the advancement screen.
    pub tab_id: Option<ResourceLocation>,
}

impl CSelectAdvancementTab {
    /// Creates a new packet to select an advancement tab.
    pub fn new(tab_id: Option<ResourceLocation>) -> (r: Self)
        ensures
            r.tab_id == tab_id,
    {
        Self { tab_id }
    }

    /// Creates a packet to select a specific tab.
    pub fn select(tab_id: ResourceLocation) -> (r: Self)
        ensures
            r.tab_id == Some(tab_id),
    {
        Self { tab_id: Some(tab_id) }
    }

    /// Creates a packet to deselect all tabs (close screen).
    pub fn deselect() -> (r: Self)
        ensures
            r.tab_id is None,
    {
        Self { tab_id: None }
    }

    /// Appends the packet's body: the optional tab identifier.
    pub fn write_packet_data(&self, out: &mut Vec<u8>) -> (r: Result<(), WritingError>)
        requires
            option_id_fits(self.tab_id),
        ensures
            r is Ok,
            final(out)@ == old(out)@ + option_id_bytes(self.tab_id),
    {
        write_option_id(out, &self.tab_id);
        Ok(())
    }
}

/// Appends an optional identifier: a presence flag, then the identifier when present.
fn write_option_id(out: &mut Vec<u8>, id: &Option<ResourceLocation>)
    requires
        option_id_fits(*id),
    ensures
        final(out)@ == old(out)@ + option_id_bytes(*id),
{
    match id {
        Some(id) => {
            write_bool(out, true);
            write_resource_location(out, id);
        },
        None => {
            write_bool(out, false);
        },
    }
    assert(out@ =~= old(out)@ + option_id_bytes(*id));
}

} // verus!
