use vstd::prelude::*;

use crate::names::owned;
use crate::protocol::codec::{
    lemma_varint_short, lemma_varuint_roundtrip, varint_bytes, varuint_parse, ReadFault, ReadingError,
};
use crate::protocol::ser::{
    byte_parse, get_bool, get_i8, get_resource_location, get_var_int, resource_location_parse,
};
use crate::util::resource_location::ResourceLocation;

verus! {

/// `r` reports the outcome `p` of reading a whole packet.
pub open spec fn packet_matches<T, V>(
    r: Result<T, ReadingError>,
    p: Result<V, ReadFault>,
    same: spec_fn(T, V) -> bool,
) -> bool {
    match p {
        Ok(v) => r matches Ok(x) && same(x, v),
        Err(ReadFault::Incomplete) => r matches Err(ReadingError::Incomplete(_)),
        Err(ReadFault::TooLarge) => r matches Err(ReadingError::TooLarge(_)),
        Err(ReadFault::Invalid) => r matches Err(ReadingError::Message(_)),
    }
}

/// The fields of a recipe placement request read from `s`.
pub open spec fn place_recipe_parse(s: Seq<u8>) -> Result<(i8, (Seq<char>, Seq<char>), bool), ReadFault> {
    match byte_parse(s) {
        Err(e) => Err(e),
        Ok((w, n1)) => match resource_location_parse(s.skip(n1 as int)) {
            Err(e) => Err(e),
            Ok((id, n2)) => match byte_parse(s.skip((n1 + n2) as int)) {
                Err(e) => Err(e),
                Ok((b, n3)) => Ok((w as i8, id, b != 0)),
            },
        },
    }
}

/// Sent by the client when the player clicks on a recipe in the recipe book.
/// This requests the server to place the recipe ingredients into the crafting grid.
#[derive(Debug)]
pub struct SPlaceRecipe {
    /// The window ID of the crafting table/inventory
    pub window_id: i8,
    /// The recipe the player wants to craft
    pub recipe: ResourceLocation,
    /// Whether to place all available items (shift-click)
    pub make_all: bool,
}

impl SPlaceRecipe {
    /// Reads the packet from its body.
    pub fn read(data: &[u8]) -> (r: Result<Self, ReadingError>)
        ensures
            packet_matches(
                r,
                place_recipe_parse(data@),
                |x: Self, v: (i8, (Seq<char>, Seq<char>), bool)|
                    x.window_id == v.0 && x.recipe@ == v.1 && x.make_all == v.2,
            ),
    {
        assert(data@.skip(0) =~= data@);
        let (window_id, p) = match get_i8(data, 0) {
            Ok(v) => v,
            Err(e) => {
                return Err(e);
            },
        };
        let (recipe, p2) = match get_resource_location(data, p) {
            Ok(v) => v,
            Err(e) => {
                return Err(e);
            },
        };
        let (make_all, p3) = match get_bool(data, p2) {
            Ok(v) => v,
            Err(e) => {
                return Err(e);
            },
        };
        Ok(Self { window_id, recipe, make_all })
    }
}

/// Types of recipe books.
#[derive(Debug, Clone, Copy, PartialEq, Eq)]
pub enum RecipeBookType {
    Crafting,
    Furnace,
    BlastFurnace,
    Smoker,
}

impl RecipeBookType {
    /// The book type with a protocol number.
    pub open spec fn from_number(value: i32) -> Option<RecipeBookType> {
        if value == 0 {
            Some(RecipeBookType::Crafting)
        } else if value == 1 {
            Some(RecipeBookType::Furnace)
        } else if value == 2 {
            Some(RecipeBookType::BlastFurnace)
        } else if value == 3 {
            Some(RecipeBookType::Smoker)
        } else {
            None
        }
    }

    /// Returns the book type from its protocol value.
    pub fn from_varint(value: i32) -> (r: Option<Self>)
        ensures
            r == Self::from_number(value),
            value == 0 ==> r == Some(RecipeBookType::Crafting),
            value == 1 ==> r == Some(RecipeBookType::Furnace),
            value == 2 ==> r == Some(RecipeBookType::BlastFurnace),
            value == 3 ==> r == Some(RecipeBookType::Smoker),
            !(0 <= value <= 3) ==> r is None,
    {
        match value {
            0 => Some(RecipeBookType::Crafting),
            1 => Some(RecipeBookType::Furnace),
            2 => Some(RecipeBookType::BlastFurnace),
            3 => Some(RecipeBookType::Smoker),
            _ => None,
        }
    }
}

/// The fields of a recipe book settings change read from `s`.
pub open spec fn change_settings_parse(s: Seq<u8>) -> Result<(RecipeBookType, bool, bool), ReadFault> {
    match varuint_parse(s) {
        Err(e) => Err(e),
        Ok((v, n1)) => match RecipeBookType::from_number(v as i32) {
            None => Err(ReadFault::Invalid),
            Some(t) => match byte_parse(s.skip(n1 as int)) {
                Err(e) => Err(e),
                Ok((b1, n2)) => match byte_parse(s.skip((n1 + n2) as int)) {
                    Err(e) => Err(e),
                    Ok((b2, n3)) => Ok((t, b1 != 0, b2 != 0)),
                },
            },
        },
    }
}

/// The protocol numbers the recipe books: 0 is crafting, 1 the furnace, 2 the blast furnace
/// and 3 the smoker; no other number names a book.
pub proof fn lemma_book_numbers(value: i32)
    ensures
        RecipeBookType::from_number(0) == Some(RecipeBookType::Crafting),
        RecipeBookType::from_number(1) == Some(RecipeBookType::Furnace),
        RecipeBookType::from_number(2) == Some(RecipeBookType::BlastFurnace),
        RecipeBookType::from_number(3) == Some(RecipeBookType::Smoker),
        !(0 <= value <= 3) ==> RecipeBookType::from_number(value) is None,
{
}

/// A settings change whose first byte is a book number below 4, then the open and filter
/// bytes, reads as that book with those two flags, whatever follows.
pub proof fn lemma_change_settings_bytes(book: u8, open: u8, filter: u8, rest: Seq<u8>)
    requires
        book < 4,
    ensures
        change_settings_parse(seq![book, open, filter] + rest) matches Ok((t, o, f)) && o == (open
            != 0) && f == (filter != 0) && (book == 0 ==> t == RecipeBookType::Crafting) && (book
            == 1 ==> t == RecipeBookType::Furnace) && (book == 2 ==> t
            == RecipeBookType::BlastFurnace) && (book == 3 ==> t == RecipeBookType::Smoker),
{
    let s = seq![book, open, filter] + rest;
    lemma_varint_short(book as u32);
    lemma_varuint_roundtrip(book as u32, seq![open, filter] + rest);
    assert(varint_bytes(book as u32) + (seq![open, filter] + rest) =~= s);
    assert(s.skip(1) =~= seq![open, filter] + rest);
    assert(s.skip(2) =~= seq![filter] + rest);
    assert(((book as u32) as i32) == book as i32);
}

/// Sent by the client when the player changes recipe book settings.
#[derive(Debug)]
pub struct SRecipeBookChangeSettings {
    /// The recipe book type being modified.
    pub book_type: RecipeBookType,
    /// Whether the recipe book is open.
    pub book_open: bool,
    /// Whether filtering is active.
    pub filter_active: bool,
}

impl SRecipeBookChangeSettings {
    /// Reads the packet from its body; an unknown book type is refused.
    pub fn read(data: &[u8]) -> (r: Result<Self, ReadingError>)
        ensures
            packet_matches(
                r,
                change_settings_parse(data@),
                |x: Self, v: (RecipeBookType, bool, bool)|
                    x.book_type == v.0 && x.book_open == v.1 && x.filter_active == v.2,
            ),
    {
        assert(data@.skip(0) =~= data@);
        let (book_type_id, p) = match get_var_int(data, 0) {
            Ok(v) => v,
            Err(e) => {
                return Err(e);
            },
        };
        let book_type = match RecipeBookType::from_varint(book_type_id.0) {
            Some(t) => t,
            None => {
                return Err(ReadingError::Message(owned("Invalid recipe book type")));
            },
        };
        let (book_open, p2) = match get_bool(data, p) {
            Ok(v) => v,
            Err(e) => {
                return Err(e);
            },
        };
        let (filter_active, p3) = match get_bool(data, p2) {
            Ok(v) => v,
            Err(e) => {
                return Err(e);
            },
        };
        Ok(Self { book_type, book_open, filter_active })
    }
}

/// Sent by the client when the player clicks a recipe in the recipe book.
#[derive(Debug)]
pub struct SRecipeBookSeenRecipe {
    /// The recipe identifier that was viewed/clicked.
    pub recipe_id: ResourceLocation,
}

impl SRecipeBookSeenRecipe {
    /// Reads the packet from its body.
    pub fn read(data: &[u8]) -> (r: Result<Self, ReadingError>)
        ensures
            packet_matches(
                r,
                resource_location_parse(data@),
                |x: Self, v: ((Seq<char>, Seq<char>), nat)| x.recipe_id@ == v.0,
            ),
    {
        assert(data@.skip(0) =~= data@);
        match get_resource_location(data, 0) {
            Ok((recipe_id, p)) => Ok(Self { recipe_id }),
            Err(e) => Err(e),
        }
    }
}

/// Actions for the seen advancements packet.
#[derive(Debug, Clone, Copy, PartialEq, Eq)]
pub enum SeenAdvancementsAction {
    /// The player opened an advancement tab.
    OpenedTab,
    /// The player closed the advancement screen.
    ClosedScreen,
}

impl SeenAdvancementsAction {
    /// The action with a protocol number.
    pub open spec fn from_number(value: i32) -> Option<SeenAdvancementsAction> {
        if value == 0 {
            Some(SeenAdvancementsAction::OpenedTab)
        } else if value == 1 {
            Some(SeenAdvancementsAction::ClosedScreen)
        } else {
            None
        }
    }

    /// The protocol number of an action.
    pub open spec fn number(self) -> i32 {
        match self {
            SeenAdvancementsAction::OpenedTab => 0,
            SeenAdvancementsAction::ClosedScreen => 1,
        }
    }

    /// Returns the action from its protocol value.
    pub fn from_varint(value: i32) -> (r: Option<Self>)
        ensures
            r == Self::from_number(value),
    {
        match value {
            0 => Some(SeenAdvancementsAction::OpenedTab),
            1 => Some(SeenAdvancementsAction::ClosedScreen),
            _ => None,
        }
    }

    /// Returns the protocol value for this action.
    pub fn to_varint(self) -> (r: i32)
        ensures
            r == self.number(),
    {
        match self {
            SeenAdvancementsAction::OpenedTab => 0,
            SeenAdvancementsAction::ClosedScreen => 1,
        }
    }
}

/// An action's number names the action back, and only the two numbers name actions.
pub proof fn lemma_seen_action_numbers(action: SeenAdvancementsAction, value: i32)
    ensures
        SeenAdvancementsAction::from_number(action.number()) == Some(action),
        SeenAdvancementsAction::from_number(value) matches Some(a) ==> a.number() == value,
{
}

/// The fields of a seen-advancements notice read from `s`: the tab is read only when the tab
/// was opened.
pub open spec fn seen_advancements_parse(s: Seq<u8>) -> Result<
    (SeenAdvancementsAction, Option<(Seq<char>, Seq<char>)>),
    ReadFault,
> {
    match varuint_parse(s) {
        Err(e) => Err(e),
        Ok((v, n1)) => match SeenAdvancementsAction::from_number(v as i32) {
            None => Err(ReadFault::Invalid),
            Some(SeenAdvancementsAction::OpenedTab) => match resource_location_parse(
                s.skip(n1 as int),
            ) {
                Err(e) => Err(e),
                Ok((id, n2)) => Ok((SeenAdvancementsAction::OpenedTab, Some(id))),
            },
            Some(a) => Ok((a, None)),
        },
    }
}

/// The tab of a read notice is the one the spec names.
pub open spec fn same_tab(x: Option<ResourceLocation>, v: Option<(Seq<char>, Seq<char>)>) -> bool {
    match (x, v) {
        (Some(a), Some(b)) => a@ == b,
        (None, None) => true,
        _ => false,
    }
}

/// Sent by the client when the player interacts with the advancement screen.
#[derive(Debug)]
pub struct SSeenAdvancements {
    /// The action being performed.
    pub action: SeenAdvancementsAction,
    /// The tab identifier (only present if action is OpenedTab).
    pub tab_id: Option<ResourceLocation>,
}

impl SSeenAdvancements {
    /// Reads the packet from its body; an unknown action is refused.
    pub fn read(data: &[u8]) -> (r: Result<Self, ReadingError>)
        ensures
            packet_matches(
                r,
                seen_advancements_parse(data@),
                |x: Self, v: (SeenAdvancementsAction, Option<(Seq<char>, Seq<char>)>)|
                    x.action == v.0 && same_tab(x.tab_id, v.1),
            ),
    {
        assert(data@.skip(0) =~= data@);
        let (action_id, p) = match get_var_int(data, 0) {
            Ok(v) => v,
            Err(e) => {
                return Err(e);
            },
        };
        let action = match SeenAdvancementsAction::from_varint(action_id.0) {
            Some(a) => a,
            None => {
                return Err(ReadingError::Message(owned("Invalid seen advancements action")));
            },
        };
        let tab_id = match action {
            SeenAdvancementsAction::OpenedTab => {
                match get_resource_location(data, p) {
                    Ok((id, p2)) => Some(id),
                    Err(e) => {
                        return Err(e);
                    },
                }
            },
            SeenAdvancementsAction::ClosedScreen => None,
        };
        Ok(Self { action, tab_id })
    }
}

} // verus!
