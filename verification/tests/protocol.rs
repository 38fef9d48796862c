use pumpkin_advancement::protocol::codec::{
    decode_varuint, encode_varuint, ReadingError, VarInt, WritingError,
};
use pumpkin_advancement::protocol::ser::{get_list, get_option, get_u8, write_list, write_option};
use pumpkin_advancement::protocol::ser::{
    get_bool, get_resource_location, get_string, get_string_bounded, get_var_int, write_bool,
    write_i32_be, write_i8, write_resource_location, write_string, write_string_bounded,
    write_var_int,
};
use pumpkin_advancement::protocol::ser::{get_i16_be, get_i32_be, get_i64_be, get_u16_be, get_u32_be, get_u64_be, write_i16_be, write_i64_be, write_u16_be, write_u32_be, write_u64_be};
use pumpkin_advancement::protocol::ser::{get_fixed_bitset, read_boxed_slice, read_remaining_to_boxed_slice, write_fixed_bitset};
use pumpkin_advancement::protocol::server::{
    RecipeBookType, SPlaceRecipe, SRecipeBookChangeSettings, SSeenAdvancements,
    SeenAdvancementsAction,
};
use pumpkin_advancement::util::resource_location::ResourceLocation;

fn varint_bytes(v: i32) -> Vec<u8> {
    let mut out = Vec::new();
    VarInt(v).encode(&mut out);
    out
}

#[test]
fn varint_encodings() {
    assert_eq!(varint_bytes(69), vec![69]);
    assert_eq!(varint_bytes(0), vec![0]);
    assert_eq!(varint_bytes(300), vec![0xac, 0x02]);
    assert_eq!(varint_bytes(-1), vec![0xff, 0xff, 0xff, 0xff, 0x0f]);
    assert_eq!(varint_bytes(i32::MIN), vec![0x80, 0x80, 0x80, 0x80, 0x08]);
}

#[test]
fn varint_roundtrip() {
    for v in [69, 0, 1, 127, 128, 300, -1, i32::MAX, i32::MIN, 2097151] {
        let bytes = varint_bytes(v);
        let (read, next) = VarInt::decode(&bytes, 0).unwrap();
        assert_eq!(read.0, v);
        assert_eq!(next, bytes.len());
    }
}

#[test]
fn varuint_reads_from_an_offset() {
    let mut out = vec![9, 9];
    encode_varuint(300, &mut out);
    let (v, next) = decode_varuint(&out, 2).unwrap();
    assert_eq!(v, 300);
    assert_eq!(next, 4);
}

#[test]
fn varint_errors() {
    assert!(matches!(VarInt::decode(&[], 0), Err(ReadingError::Incomplete(_))));
    assert!(matches!(VarInt::decode(&[0x80, 0x80], 0), Err(ReadingError::Incomplete(_))));
    assert!(matches!(
        VarInt::decode(&[0x80, 0x80, 0x80, 0x80, 0x80, 0x01], 0),
        Err(ReadingError::TooLarge(_))
    ));
}

#[test]
fn string_roundtrip() {
    let mut out = Vec::new();
    write_string(&mut out, "héllo");
    assert_eq!(out[0], 6);
    let (s, next) = get_string(&out, 0).unwrap();
    assert_eq!(s, "héllo");
    assert_eq!(next, out.len());
}

#[test]
fn string_bounds_and_errors() {
    let mut out = Vec::new();
    assert!(write_string_bounded(&mut out, "abc", 3).is_ok());
    assert_eq!(out, vec![3, b'a', b'b', b'c']);
    assert!(matches!(get_string_bounded(&out, 0, 2), Err(ReadingError::TooLarge(_))));
    assert!(matches!(get_string(&[5, b'a'], 0), Err(ReadingError::Incomplete(_))));
    assert!(matches!(get_string(&[2, 0xff, 0xfe], 0), Err(ReadingError::Message(_))));
}

#[test]
fn resource_location_roundtrip() {
    let id = ResourceLocation::new("minecraft".to_string(), "story/root".to_string());
    let mut out = Vec::new();
    write_resource_location(&mut out, &id);
    let (read, _) = get_resource_location(&out, 0).unwrap();
    assert_eq!(read, id);
    let mut plain = Vec::new();
    write_string(&mut plain, "nocolon");
    assert!(get_resource_location(&plain, 0).is_err());
}

#[test]
fn bool_and_var_int_writers() {
    let mut out = Vec::new();
    write_bool(&mut out, true);
    write_bool(&mut out, false);
    write_var_int(&mut out, &VarInt(128));
    write_i32_be(&mut out, 0x01020304);
    assert_eq!(out, vec![1, 0, 0x80, 0x01, 1, 2, 3, 4]);
    assert_eq!(get_bool(&out, 0).unwrap(), (true, 1));
    assert_eq!(get_var_int(&out, 2).unwrap().0 .0, 128);
}

#[test]
fn place_recipe_reads_its_fields() {
    let mut data = Vec::new();
    write_i8(&mut data, -3);
    write_resource_location(&mut data, &ResourceLocation::vanilla("stick"));
    write_bool(&mut data, true);
    let packet = SPlaceRecipe::read(&data).unwrap();
    assert_eq!(packet.window_id, -3);
    assert_eq!(packet.recipe, ResourceLocation::vanilla("stick"));
    assert!(packet.make_all);
    assert!(matches!(SPlaceRecipe::read(&data[..2]), Err(_)));
}

#[test]
fn change_settings_reads_book_and_flags() {
    let packet = SRecipeBookChangeSettings::read(&[2, 1, 0]).unwrap();
    assert_eq!(packet.book_type, RecipeBookType::BlastFurnace);
    assert!(packet.book_open);
    assert!(!packet.filter_active);
    assert!(matches!(SRecipeBookChangeSettings::read(&[7, 1, 0]), Err(ReadingError::Message(_))));
    assert_eq!(RecipeBookType::from_varint(3), Some(RecipeBookType::Smoker));
    assert_eq!(RecipeBookType::from_varint(4), None);
}

#[test]
fn seen_advancements_reads_tab_only_when_opened() {
    let mut data = Vec::new();
    write_var_int(&mut data, &VarInt(0));
    write_resource_location(&mut data, &ResourceLocation::vanilla("story/root"));
    let opened = SSeenAdvancements::read(&data).unwrap();
    assert_eq!(opened.action, SeenAdvancementsAction::OpenedTab);
    assert_eq!(opened.tab_id, Some(ResourceLocation::vanilla("story/root")));
    let closed = SSeenAdvancements::read(&[1]).unwrap();
    assert_eq!(closed.action, SeenAdvancementsAction::ClosedScreen);
    assert_eq!(closed.tab_id, None);
    assert!(matches!(SSeenAdvancements::read(&[5]), Err(ReadingError::Message(_))));
    assert_eq!(SeenAdvancementsAction::from_varint(SeenAdvancementsAction::ClosedScreen.to_varint()), Some(SeenAdvancementsAction::ClosedScreen));
}

#[test]
fn fixed_width_numbers_roundtrip() {
    let mut out = Vec::new();
    write_u16_be(&mut out, 0xbeef);
    write_i16_be(&mut out, -2);
    write_u32_be(&mut out, 0xdeadbeef);
    write_i32_be(&mut out, -5);
    write_u64_be(&mut out, 0x0102030405060708);
    write_i64_be(&mut out, i64::MIN);
    assert_eq!(&out[..4], &[0xbe, 0xef, 0xff, 0xfe]);
    assert_eq!(get_u16_be(&out, 0).unwrap(), (0xbeef, 2));
    assert_eq!(get_i16_be(&out, 2).unwrap(), (-2, 4));
    assert_eq!(get_u32_be(&out, 4).unwrap(), (0xdeadbeef, 8));
    assert_eq!(get_i32_be(&out, 8).unwrap(), (-5, 12));
    assert_eq!(get_u64_be(&out, 12).unwrap(), (0x0102030405060708, 20));
    assert_eq!(get_i64_be(&out, 20).unwrap(), (i64::MIN, 28));
    assert!(matches!(get_u32_be(&out, 26), Err(ReadingError::Incomplete(_))));
}

#[test]
fn slices_and_bitsets() {
    let data = [1u8, 2, 3, 4, 5];
    assert_eq!(read_boxed_slice(&data, 1, 3).unwrap(), (vec![2, 3, 4], 4));
    assert!(matches!(read_boxed_slice(&data, 1, 5), Err(ReadingError::Incomplete(_))));
    assert_eq!(read_remaining_to_boxed_slice(&data, 2, 3).unwrap(), (vec![3, 4, 5], 5));
    assert!(matches!(read_remaining_to_boxed_slice(&data, 0, 4), Err(ReadingError::TooLarge(_))));
    let mut out = Vec::new();
    write_fixed_bitset(&mut out, 20, &[0xaa]);
    assert_eq!(out, vec![0xaa, 0, 0]);
    let mut short = Vec::new();
    write_fixed_bitset(&mut short, 8, &[1, 2, 3]);
    assert_eq!(short, vec![1]);
    assert_eq!(get_fixed_bitset(&data, 0, 9).unwrap(), (vec![1, 2], 2));
}

#[test]
fn option_and_list_round_trip() {
    let mut out = Vec::new();
    let id = |v: &u8| -> Result<Vec<u8>, WritingError> {
        Ok(vec![*v])
    };
    write_option(&mut out, &Some(7u8), id).unwrap();
    write_option(&mut out, &None::<u8>, id).unwrap();
    write_list(&mut out, &[3u8, 4, 5], id).unwrap();
    assert_eq!(out, vec![1, 7, 0, 3, 3, 4, 5]);

    let (first, p) = get_option(&out, 0, |d: &[u8], p: usize| get_u8(d, p)).unwrap();
    assert_eq!((first, p), (Some(7), 2));
    let (second, p) = get_option(&out, p, |d: &[u8], p: usize| get_u8(d, p)).unwrap();
    assert_eq!((second, p), (None, 3));
    let (list, p) = get_list(&out, p, |d: &[u8], p: usize| get_u8(d, p)).unwrap();
    assert_eq!(list, vec![3, 4, 5]);
    assert_eq!(p, out.len());
}

#[test]
fn list_cut_short_is_incomplete() {
    let data = vec![3u8, 1, 2];
    let r = get_list(&data, 0, |d: &[u8], p: usize| get_u8(d, p));
    assert!(matches!(r, Err(ReadingError::Incomplete(_))));
    let r = get_option(&[], 0, |d: &[u8], p: usize| get_u8(d, p));
    assert!(matches!(r, Err(ReadingError::Incomplete(_))));
}

#[test]
fn writer_error_is_returned() {
    let mut out = Vec::new();
    let r = write_list(&mut out, &[1u8, 2], |v: &u8| {
        if *v == 2 {
            Err(WritingError::Message("two".to_string()))
        } else {
            Ok(vec![*v])
        }
    });
    assert!(matches!(r, Err(WritingError::Message(_))));
    assert_eq!(out, vec![2, 1]);
}
