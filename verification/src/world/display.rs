use vstd::prelude::*;

use crate::util::json::JsonValue;
use crate::util::resource_location::ResourceLocation;
use crate::util::text::TextComponent;
use crate::world::frame::AdvancementFrame;

verus! {

/// The value of a display flag that a data file leaves out.
pub fn default_true() -> (r: bool)
    ensures
        r,
{
    true
}

/// How an advancement is shown in the advancement screen.
#[derive(Debug)]
pub struct AdvancementDisplay {
    /// The icon item.
    pub icon: AdvancementIcon,
    pub title: TextComponent,
    pub description: TextComponent,
    /// Task, goal or challenge.
    pub frame: AdvancementFrame,
    /// The background texture, used by root advancements only.
    pub background: Option<ResourceLocation>,
    /// Whether completing it shows a toast.
    pub show_toast: bool,
    /// Whether completing it is announced in chat.
    pub announce_to_chat: bool,
    /// Whether it stays hidden until its parent is completed.
    pub hidden: bool,
    /// The X position in the tab, as the bit pattern of a 32-bit float.
    pub x_bits: u32,
    /// The Y position in the tab, as the bit pattern of a 32-bit float.
    pub y_bits: u32,
}

impl AdvancementDisplay {
    /// A display with the given properties at position (0, 0).
    pub fn new(
        icon: AdvancementIcon,
        title: TextComponent,
        description: TextComponent,
        frame: AdvancementFrame,
        background: Option<ResourceLocation>,
        show_toast: bool,
        announce_to_chat: bool,
        hidden: bool,
    ) -> (r: Self)
        ensures
            r == (AdvancementDisplay {
                icon,
                title,
                description,
                frame,
                background,
                show_toast,
                announce_to_chat,
                hidden,
                x_bits: 0,
                y_bits: 0,
            }),
    {
        Self {
            icon,
            title,
            description,
            frame,
            background,
            show_toast,
            announce_to_chat,
            hidden,
            x_bits: 0,
            y_bits: 0,
        }
    }

    /// Sets the position in the tab, each coordinate given by the bit pattern of a 32-bit
    /// float.
    pub fn set_pos(&mut self, x_bits: u32, y_bits: u32)
        ensures
            *final(self) == (AdvancementDisplay { x_bits, y_bits, ..*old(self) }),
    {
        self.x_bits = x_bits;
        self.y_bits = y_bits;
    }
}

/// The count of an icon that a data file leaves out.
pub fn default_count() -> (r: i32)
    ensures
        r == 1,
{
    1
}

/// Whether a count is the one a data file may leave out.
pub fn is_default_count(count: &i32) -> (r: bool)
    ensures
        r == (*count == 1),
{
    *count == 1
}

/// The icon of an advancement.
#[derive(Debug)]
pub struct AdvancementIcon {
    /// The item, such as `minecraft:diamond`.
    pub item: ResourceLocation,
    /// How many items are shown.
    pub count: i32,
    /// The item's components, if any.
    pub components: Option<JsonValue>,
}

impl AdvancementIcon {
    /// One item with no components.
    pub fn simple(item: ResourceLocation) -> (r: Self)
        ensures
            r == (AdvancementIcon { item, count: 1, components: None }),
    {
        Self { item, count: 1, components: None }
    }

    /// One item with components.
    pub fn with_components(item: ResourceLocation, components: JsonValue) -> (r: Self)
        ensures
            r == (AdvancementIcon { item, count: 1, components: Some(components) }),
    {
        Self { item, count: 1, components: Some(components) }
    }

    /// `count` items with no components.
    pub fn with_count(item: ResourceLocation, count: i32) -> (r: Self)
        ensures
            r == (AdvancementIcon { item, count, components: None }),
    {
        Self { item, count, components: None }
    }
}

} // verus!
