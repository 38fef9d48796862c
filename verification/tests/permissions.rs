use pumpkin_advancement::server::permissions::{
    level_0_permissions, level_2_permissions, level_3_permissions, level_4_permissions,
    Permission, PermissionDefault, PermissionLvl, PermissionRegistry,
};

#[test]
fn permission_tables() {
    let two = level_2_permissions();
    assert_eq!(two.len(), 27);
    assert_eq!(two[0].node, "minecraft:command.kill");
    assert!(two.iter().all(|p| p.default == PermissionDefault::Op(PermissionLvl::Two)));
    let three = level_3_permissions();
    assert_eq!(three.len(), 14);
    assert_eq!(three[13].node, "minecraft:command.transfer");
    assert_eq!(three[13].description, "Transfers the player to another server");
    assert_eq!(level_0_permissions().len(), 5);
    assert_eq!(level_4_permissions()[0].node, "minecraft:command.stop");
}

#[test]
fn all_tables_register_once() {
    let mut registry = PermissionRegistry::new();
    assert!(registry.register_all(level_0_permissions()).is_ok());
    assert!(registry.register_all(level_2_permissions()).is_ok());
    assert!(registry.register_all(level_3_permissions()).is_ok());
    assert!(registry.register_all(level_4_permissions()).is_ok());
    let stop = registry.get(&"minecraft:command.stop".to_string()).unwrap();
    assert_eq!(stop.default, PermissionDefault::Op(PermissionLvl::Four));
}

#[test]
fn duplicate_permission_refused() {
    let mut registry = PermissionRegistry::new();
    let p = Permission::new("a:b", "first", PermissionDefault::Allow);
    assert!(registry.register_permission(p).is_ok());
    let q = Permission::new("a:b", "second", PermissionDefault::Deny);
    assert_eq!(
        registry.register_permission(q),
        Err("Permission a:b is already registered".to_string())
    );
    assert_eq!(registry.get(&"a:b".to_string()).unwrap().description, "first");
    assert!(registry.register_all(level_4_permissions()).is_ok());
    assert!(registry.register_all(level_4_permissions()).is_err());
}
