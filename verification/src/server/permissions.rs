use vstd::prelude::*;

use crate::names::owned;

verus! {

/// An operator level; a higher level may do more.
#[derive(Debug, Clone, Copy, PartialEq, Eq, Hash, Structural)]
pub enum PermissionLvl {
    Zero,
    One,
    Two,
    Three,
    Four,
}

/// Who holds a permission when nothing else says so.
#[derive(Debug, Clone, Copy, PartialEq, Eq, Hash, Structural)]
pub enum PermissionDefault {
    /// Nobody.
    Deny,
    /// Everybody.
    Allow,
    /// Operators of at least the given level.
    Op(PermissionLvl),
}

/// A permission node with its description and its default holders.
#[derive(Debug)]
pub struct Permission {
    /// The node, written `namespace:path`.
    pub node: String,
    pub description: String,
    pub default: PermissionDefault,
}

impl Permission {
    /// A permission with the given node, description and default.
    pub fn new(node: &str, description: &str, default: PermissionDefault) -> (r: Self)
        ensures
            r.node@ == node@,
            r.description@ == description@,
            r.default == default,
    {
        Self { node: owned(node), description: owned(description), default }
    }
}

/// The nodes of a list of permissions, in order.
pub open spec fn nodes_of(perms: Seq<Permission>) -> Seq<Seq<char>> {
    perms.map_values(|p: Permission| p.node@)
}

/// The descriptions of a list of permissions, in order.
pub open spec fn descriptions_of(perms: Seq<Permission>) -> Seq<Seq<char>> {
    perms.map_values(|p: Permission| p.description@)
}

/// Each node of `nodes`, taken in turn, is neither in `existing` nor among the nodes before it.
pub open spec fn fresh_in_turn(existing: Seq<Seq<char>>, nodes: Seq<Seq<char>>) -> bool {
    forall|k: int| 0 <= k < nodes.len() ==> !(existing + nodes.take(k)).contains(#[trigger] nodes[k])
}

/// The message of a permission registered twice.
pub open spec fn duplicate_message(node: Seq<char>) -> Seq<char> {
    "Permission "@ + node + " is already registered"@
}

/// The permissions known to the server, each node once.
#[derive(Debug)]
pub struct PermissionRegistry {
    permissions: Vec<Permission>,
}

impl PermissionRegistry {
    /// The registered permissions, in registration order.
    pub closed spec fn perms(&self) -> Seq<Permission> {
        self.permissions@
    }

    /// No node is registered twice.
    pub open spec fn wf(&self) -> bool {
        forall|i: int, j: int|
            0 <= i < self.perms().len() && 0 <= j < self.perms().len() && i != j ==> (
            #[trigger] self.perms()[i]).node@ != (#[trigger] self.perms()[j]).node@
    }

    /// An empty registry.
    pub fn new() -> (r: Self)
        ensures
            r.perms().len() == 0,
            r.wf(),
    {
        Self { permissions: Vec::new() }
    }

    /// The position of the permission with the given node.
    fn position(&self, node: &String) -> (r: Option<usize>)
        ensures
            match r {
                Some(k) => k < self.perms().len() && self.perms()[k as int].node@ == node@,
                None => !nodes_of(self.perms()).contains(node@),
            },
    {
        let mut i: usize = 0;
        while i < self.permissions.len()
            invariant
                0 <= i <= self.permissions@.len(),
                forall|k: int| 0 <= k < i ==> (#[trigger] self.permissions@[k]).node@ != node@,
            decreases self.permissions@.len() - i,
        {
            if self.permissions[i].node == *node {
                return Some(i);
            }
            i += 1;
        }
        proof {
            if nodes_of(self.perms()).contains(node@) {
                let k = choose|k: int| 0 <= k < nodes_of(self.perms()).len() && nodes_of(self.perms())[k] == node@;
                assert(self.permissions@[k].node@ == node@);
            }
        }
        None
    }

    /// The permission registered under `node`.
    pub fn get(&self, node: &String) -> (r: Option<&Permission>)
        ensures
            r is None <==> !nodes_of(self.perms()).contains(node@),
            r matches Some(p) ==> p.node@ == node@ && self.perms().contains(*p),
    {
        match self.position(node) {
            Some(k) => {
                proof {
                    assert(nodes_of(self.perms())[k as int] == node@);
                }
                Some(&self.permissions[k])
            },
            None => None,
        }
    }

    /// Registers a permission; one whose node is already registered is refused, and nothing
    /// changes.
    pub fn register_permission(&mut self, permission: Permission) -> (r: Result<(), String>)
        requires
            old(self).wf(),
        ensures
            final(self).wf(),
            r is Err <==> nodes_of(old(self).perms()).contains(permission.node@),
            r matches Err(m) ==> m@ == duplicate_message(permission.node@) && final(self).perms()
                == old(self).perms(),
            r is Ok ==> final(self).perms() == old(self).perms().push(permission),
    {
        match self.position(&permission.node) {
            Some(k) => {
                proof {
                    assert(nodes_of(self.perms())[k as int] == permission.node@);
                }
                let mut m = owned("Permission ");
                m.append(permission.node.as_str());
                m.append(" is already registered");
                Err(m)
            },
            None => {
                let ghost before = self.permissions@;
                self.permissions.push(permission);
                proof {
                    assert forall|i: int, j: int|
                        0 <= i < self.perms().len() && 0 <= j < self.perms().len() && i != j implies (
                        #[trigger] self.perms()[i]).node@ != (#[trigger] self.perms()[j]).node@ by {
                        if i < before.len() && j < before.len() {
                        } else if i < before.len() {
                            assert(nodes_of(before)[i] == before[i].node@);
                        } else {
                            assert(nodes_of(before)[j] == before[j].node@);
                        }
                    }
                }
                Ok(())
            },
        }
    }

    /// Registers permissions in turn, stopping at the first one refused, whose error is
    /// returned; those before it stay registered.
    pub fn register_all(&mut self, permissions: Vec<Permission>) -> (r: Result<(), String>)
        requires
            old(self).wf(),
        ensures
            final(self).wf(),
            r is Ok <==> fresh_in_turn(nodes_of(old(self).perms()), nodes_of(permissions@)),
            r is Ok ==> final(self).perms() == old(self).perms() + permissions@,
            r matches Err(m) ==> exists|k: int|
                0 <= k < permissions@.len() && fresh_in_turn(
                    nodes_of(old(self).perms()),
                    nodes_of(permissions@.take(k)),
                ) && (nodes_of(old(self).perms()) + nodes_of(permissions@.take(k))).contains(
                    #[trigger] permissions@[k].node@,
                ) && m@ == duplicate_message(permissions@[k].node@) && final(self).perms()
                    == old(self).perms() + permissions@.take(k),
    {
        let mut rest = permissions;
        let ghost all = rest@;
        let ghost start = self.perms();
        let n = rest.len();
        let mut k: usize = 0;
        while rest.len() > 0
            invariant
                all.len() == n,
                start == old(self).perms(),
                all == permissions@,
                self.wf(),
                k + rest@.len() == all.len(),
                rest@ == all.skip(k as int),
                self.perms() == start + all.take(k as int),
                fresh_in_turn(nodes_of(start), nodes_of(all.take(k as int))),
            decreases rest@.len(),
        {
            let p = rest.remove(0);
            let ghost pk = p;
            assert(pk == all[k as int]);
            assert(nodes_of(start + all.take(k as int)) =~= nodes_of(start) + nodes_of(all).take(k as int));
            assert(nodes_of(all.take(k as int)) =~= nodes_of(all).take(k as int));
            match self.register_permission(p) {
                Ok(()) => {
                    proof {
                        assert(all.take(k + 1) =~= all.take(k as int).push(pk));
                        assert(nodes_of(all.take(k + 1)) =~= nodes_of(all).take(k + 1));
                        assert(nodes_of(all).take(k + 1).take(k as int) =~= nodes_of(all).take(k as int));
                        assert forall|j: int| 0 <= j < nodes_of(all.take(k + 1)).len() implies !(nodes_of(start) + nodes_of(all.take(k + 1)).take(j)).contains(
                            #[trigger] nodes_of(all.take(k + 1))[j]) by {
                            if j < k {
                                assert(nodes_of(all.take(k + 1)).take(j) =~= nodes_of(all.take(k as int)).take(j));
                                assert(nodes_of(all.take(k + 1))[j] == nodes_of(all.take(k as int))[j]);
                            } else {
                                assert(nodes_of(all.take(k + 1)).take(j) =~= nodes_of(all).take(k as int));
                            }
                        }
                        assert(self.perms() =~= start + all.take(k + 1));
                        assert(rest@ =~= all.skip(k + 1));
                    }
                    k += 1;
                },
                Err(m) => {
                    proof {
                        assert(nodes_of(all)[k as int] == all[k as int].node@);
                        assert(nodes_of(all.take(k as int)) =~= nodes_of(all).take(k as int));
                        assert(nodes_of(self.perms()) =~= nodes_of(start) + nodes_of(all).take(k as int));
                        assert((nodes_of(start) + nodes_of(all).take(k as int)).contains(nodes_of(all)[k as int]));
                        assert(!fresh_in_turn(nodes_of(start), nodes_of(all)));
                        assert((nodes_of(start) + nodes_of(all.take(k as int))).contains(all[k as int].node@));
                    }
                    return Err(m);
                },
            }
        }
        proof {
            assert(all.take(k as int) =~= all);
        }
        Ok(())
    }
}

/// The permissions of the built-in commands allowed to everyone, in registration order.
pub fn level_0_permissions() -> (r: Vec<Permission>)
    ensures
        r@.len() == 5,
        forall|i: int| 0 <= i < r@.len() ==> (#[trigger] r@[i]).default == PermissionDefault::Allow,
        nodes_of(r@) == seq![
            "pumpkin:command.pumpkin"@,
            "minecraft:command.help"@,
            "minecraft:command.list"@,
            "minecraft:command.me"@,
            "minecraft:command.msg"@,
        ],
        descriptions_of(r@) == seq![
            "Shows information about the Pumpkin server"@,
            "Lists available commands and their usage"@,
            "Lists players that are currently online"@,
            "Broadcasts a narrative message about the player"@,
            "Sends a private message to another player"@,
        ],
{
    let mut r: Vec<Permission> = Vec::new();
    r.push(Permission::new("pumpkin:command.pumpkin", "Shows information about the Pumpkin server", PermissionDefault::Allow));
    r.push(Permission::new("minecraft:command.help", "Lists available commands and their usage", PermissionDefault::Allow));
    r.push(Permission::new("minecraft:command.list", "Lists players that are currently online", PermissionDefault::Allow));
    r.push(Permission::new("minecraft:command.me", "Broadcasts a narrative message about the player", PermissionDefault::Allow));
    r.push(Permission::new("minecraft:command.msg", "Sends a private message to another player", PermissionDefault::Allow));
    proof {
        assert(nodes_of(r@) =~= seq![
            "pumpkin:command.pumpkin"@,
            "minecraft:command.help"@,
            "minecraft:command.list"@,
            "minecraft:command.me"@,
            "minecraft:command.msg"@,
        ]);
        assert(descriptions_of(r@) =~= seq![
            "Shows information about the Pumpkin server"@,
            "Lists available commands and their usage"@,
            "Lists players that are currently online"@,
            "Broadcasts a narrative message about the player"@,
            "Sends a private message to another player"@,
        ]);
    }
    r
}

/// The permissions of the built-in commands of operator level two, in registration order.
pub fn level_2_permissions() -> (r: Vec<Permission>)
    ensures
        r@.len() == 27,
        forall|i: int| 0 <= i < r@.len() ==> (#[trigger] r@[i]).default == PermissionDefault::Op(PermissionLvl::Two),
        nodes_of(r@) == seq![
            "minecraft:command.kill"@,
            "minecraft:command.worldborder"@,
            "minecraft:command.effect"@,
            "minecraft:command.teleport"@,
            "minecraft:command.time"@,
            "minecraft:command.give"@,
            "minecraft:command.clear"@,
            "minecraft:command.setblock"@,
            "minecraft:command.seed"@,
            "minecraft:command.fill"@,
            "minecraft:command.playsound"@,
            "minecraft:command.tellraw"@,
            "minecraft:command.title"@,
            "minecraft:command.summon"@,
            "minecraft:command.experience"@,
            "minecraft:command.weather"@,
            "minecraft:command.particle"@,
            "minecraft:command.damage"@,
            "minecraft:command.bossbar"@,
            "minecraft:command.say"@,
            "minecraft:command.gamemode"@,
            "minecraft:command.gamerule"@,
            "minecraft:command.stopsound"@,
            "minecraft:command.defaultgamemode"@,
            "minecraft:command.difficulty"@,
            "minecraft:command.data"@,
            "minecraft:command.enchant"@,
        ],
        descriptions_of(r@) == seq![
            "Kills entities (players, mobs, items, etc.)"@,
            "Manages the world border"@,
            "Adds or removes status effects"@,
            "Teleports entities to other locations"@,
            "Changes or queries the world's game time"@,
            "Gives an item to a player"@,
            "Clears items from player inventory"@,
            "Changes a block to another block"@,
            "Displays the world seed"@,
            "Fills a region with a specific block"@,
            "Plays a sound to players"@,
            "Displays a JSON message to players"@,
            "Controls screen titles displayed to players"@,
            "Summons an entity"@,
            "Adds, removes or queries player experience"@,
            "Sets the weather in the server"@,
            "Creates particles in the world"@,
            "Damages entities"@,
            "Creates and manages boss bars"@,
            "Broadcasts a message to multiple players"@,
            "Sets a player's game mode"@,
            "Sets a player's game mode"@,
            "Stops sounds from playing"@,
            "Sets the default game mode for new players"@,
            "Sets the difficulty of the world"@,
            "Query and modify data of entities and blocks"@,
            "Adds an enchantment to a player's selected item, subject to the same restrictions as an anvil. Also works on any mob or entity holding a weapon/tool/armor in its main hand."@,
        ],
{
    let mut r: Vec<Permission> = Vec::new();
    r.push(Permission::new("minecraft:command.kill", "Kills entities (players, mobs, items, etc.)", PermissionDefault::Op(PermissionLvl::Two)));
    r.push(Permission::new("minecraft:command.worldborder", "Manages the world border", PermissionDefault::Op(PermissionLvl::Two)));
    r.push(Permission::new("minecraft:command.effect", "Adds or removes status effects", PermissionDefault::Op(PermissionLvl::Two)));
    r.push(Permission::new("minecraft:command.teleport", "Teleports entities to other locations", PermissionDefault::Op(PermissionLvl::Two)));
    r.push(Permission::new("minecraft:command.time", "Changes or queries the world's game time", PermissionDefault::Op(PermissionLvl::Two)));
    r.push(Permission::new("minecraft:command.give", "Gives an item to a player", PermissionDefault::Op(PermissionLvl::Two)));
    r.push(Permission::new("minecraft:command.clear", "Clears items from player inventory", PermissionDefault::Op(PermissionLvl::Two)));
    r.push(Permission::new("minecraft:command.setblock", "Changes a block to another block", PermissionDefault::Op(PermissionLvl::Two)));
    r.push(Permission::new("minecraft:command.seed", "Displays the world seed", PermissionDefault::Op(PermissionLvl::Two)));
    r.push(Permission::new("minecraft:command.fill", "Fills a region with a specific block", PermissionDefault::Op(PermissionLvl::Two)));
    r.push(Permission::new("minecraft:command.playsound", "Plays a sound to players", PermissionDefault::Op(PermissionLvl::Two)));
    r.push(Permission::new("minecraft:command.tellraw", "Displays a JSON message to players", PermissionDefault::Op(PermissionLvl::Two)));
    r.push(Permission::new("minecraft:command.title", "Controls screen titles displayed to players", PermissionDefault::Op(PermissionLvl::Two)));
    r.push(Permission::new("minecraft:command.summon", "Summons an entity", PermissionDefault::Op(PermissionLvl::Two)));
    r.push(Permission::new("minecraft:command.experience", "Adds, removes or queries player experience", PermissionDefault::Op(PermissionLvl::Two)));
    r.push(Permission::new("minecraft:command.weather", "Sets the weather in the server", PermissionDefault::Op(PermissionLvl::Two)));
    r.push(Permission::new("minecraft:command.particle", "Creates particles in the world", PermissionDefault::Op(PermissionLvl::Two)));
    r.push(Permission::new("minecraft:command.damage", "Damages entities", PermissionDefault::Op(PermissionLvl::Two)));
    r.push(Permission::new("minecraft:command.bossbar", "Creates and manages boss bars", PermissionDefault::Op(PermissionLvl::Two)));
    r.push(Permission::new("minecraft:command.say", "Broadcasts a message to multiple players", PermissionDefault::Op(PermissionLvl::Two)));
    r.push(Permission::new("minecraft:command.gamemode", "Sets a player's game mode", PermissionDefault::Op(PermissionLvl::Two)));
    r.push(Permission::new("minecraft:command.gamerule", "Sets a player's game mode", PermissionDefault::Op(PermissionLvl::Two)));
    r.push(Permission::new("minecraft:command.stopsound", "Stops sounds from playing", PermissionDefault::Op(PermissionLvl::Two)));
    r.push(Permission::new("minecraft:command.defaultgamemode", "Sets the default game mode for new players", PermissionDefault::Op(PermissionLvl::Two)));
    r.push(Permission::new("minecraft:command.difficulty", "Sets the difficulty of the world", PermissionDefault::Op(PermissionLvl::Two)));
    r.push(Permission::new("minecraft:command.data", "Query and modify data of entities and blocks", PermissionDefault::Op(PermissionLvl::Two)));
    r.push(Permission::new("minecraft:command.enchant", "Adds an enchantment to a player's selected item, subject to the same restrictions as an anvil. Also works on any mob or entity holding a weapon/tool/armor in its main hand.", PermissionDefault::Op(PermissionLvl::Two)));
    proof {
        assert(nodes_of(r@) =~= seq![
            "minecraft:command.kill"@,
            "minecraft:command.worldborder"@,
            "minecraft:command.effect"@,
            "minecraft:command.teleport"@,
            "minecraft:command.time"@,
            "minecraft:command.give"@,
            "minecraft:command.clear"@,
            "minecraft:command.setblock"@,
            "minecraft:command.seed"@,
            "minecraft:command.fill"@,
            "minecraft:command.playsound"@,
            "minecraft:command.tellraw"@,
            "minecraft:command.title"@,
            "minecraft:command.summon"@,
            "minecraft:command.experience"@,
            "minecraft:command.weather"@,
            "minecraft:command.particle"@,
            "minecraft:command.damage"@,
            "minecraft:command.bossbar"@,
            "minecraft:command.say"@,
            "minecraft:command.gamemode"@,
            "minecraft:command.gamerule"@,
            "minecraft:command.stopsound"@,
            "minecraft:command.defaultgamemode"@,
            "minecraft:command.difficulty"@,
            "minecraft:command.data"@,
            "minecraft:command.enchant"@,
        ]);
        assert(descriptions_of(r@) =~= seq![
            "Kills entities (players, mobs, items, etc.)"@,
            "Manages the world border"@,
            "Adds or removes status effects"@,
            "Teleports entities to other locations"@,
            "Changes or queries the world's game time"@,
            "Gives an item to a player"@,
            "Clears items from player inventory"@,
            "Changes a block to another block"@,
            "Displays the world seed"@,
            "Fills a region with a specific block"@,
            "Plays a sound to players"@,
            "Displays a JSON message to players"@,
            "Controls screen titles displayed to players"@,
            "Summons an entity"@,
            "Adds, removes or queries player experience"@,
            "Sets the weather in the server"@,
            "Creates particles in the world"@,
            "Damages entities"@,
            "Creates and manages boss bars"@,
            "Broadcasts a message to multiple players"@,
            "Sets a player's game mode"@,
            "Sets a player's game mode"@,
            "Stops sounds from playing"@,
            "Sets the default game mode for new players"@,
            "Sets the difficulty of the world"@,
            "Query and modify data of entities and blocks"@,
            "Adds an enchantment to a player's selected item, subject to the same restrictions as an anvil. Also works on any mob or entity holding a weapon/tool/armor in its main hand."@,
        ]);
    }
    r
}

/// The permissions of the built-in commands of operator level three, in registration order.
pub fn level_3_permissions() -> (r: Vec<Permission>)
    ensures
        r@.len() == 14,
        forall|i: int| 0 <= i < r@.len() ==> (#[trigger] r@[i]).default == PermissionDefault::Op(PermissionLvl::Three),
        nodes_of(r@) == seq![
            "minecraft:command.setworldspawn"@,
            "minecraft:command.op"@,
            "minecraft:command.deop"@,
            "minecraft:command.kick"@,
            "pumpkin:command.plugin"@,
            "pumpkin:command.plugins"@,
            "minecraft:command.ban"@,
            "minecraft:command.banip"@,
            "minecraft:command.banlist"@,
            "minecraft:command.pardon"@,
            "minecraft:command.pardonip"@,
            "minecraft:command.whitelist"@,
            "minecraft:command.tick"@,
            "minecraft:command.transfer"@,
        ],
        descriptions_of(r@) == seq![
            "Sets the world spawn point"@,
            "Grants operator status to a player"@,
            "Revokes operator status from a player"@,
            "Removes players from the server"@,
            "Manages server plugins"@,
            "Lists all plugins loaded on the server"@,
            "Adds players to banlist"@,
            "Adds IP addresses to banlist"@,
            "Displays banned players or IP addresses"@,
            "Removes entries from the player banlist"@,
            "Removes entries from the IP banlist"@,
            "Manages server whitelist"@,
            "Triggers the tick event"@,
            "Transfers the player to another server"@,
        ],
{
    let mut r: Vec<Permission> = Vec::new();
    r.push(Permission::new("minecraft:command.setworldspawn", "Sets the world spawn point", PermissionDefault::Op(PermissionLvl::Three)));
    r.push(Permission::new("minecraft:command.op", "Grants operator status to a player", PermissionDefault::Op(PermissionLvl::Three)));
    r.push(Permission::new("minecraft:command.deop", "Revokes operator status from a player", PermissionDefault::Op(PermissionLvl::Three)));
    r.push(Permission::new("minecraft:command.kick", "Removes players from the server", PermissionDefault::Op(PermissionLvl::Three)));
    r.push(Permission::new("pumpkin:command.plugin", "Manages server plugins", PermissionDefault::Op(PermissionLvl::Three)));
    r.push(Permission::new("pumpkin:command.plugins", "Lists all plugins loaded on the server", PermissionDefault::Op(PermissionLvl::Three)));
    r.push(Permission::new("minecraft:command.ban", "Adds players to banlist", PermissionDefault::Op(PermissionLvl::Three)));
    r.push(Permission::new("minecraft:command.banip", "Adds IP addresses to banlist", PermissionDefault::Op(PermissionLvl::Three)));
    r.push(Permission::new("minecraft:command.banlist", "Displays banned players or IP addresses", PermissionDefault::Op(PermissionLvl::Three)));
    r.push(Permission::new("minecraft:command.pardon", "Removes entries from the player banlist", PermissionDefault::Op(PermissionLvl::Three)));
    r.push(Permission::new("minecraft:command.pardonip", "Removes entries from the IP banlist", PermissionDefault::Op(PermissionLvl::Three)));
    r.push(Permission::new("minecraft:command.whitelist", "Manages server whitelist", PermissionDefault::Op(PermissionLvl::Three)));
    r.push(Permission::new("minecraft:command.tick", "Triggers the tick event", PermissionDefault::Op(PermissionLvl::Three)));
    r.push(Permission::new("minecraft:command.transfer", "Transfers the player to another server", PermissionDefault::Op(PermissionLvl::Three)));
    proof {
        assert(nodes_of(r@) =~= seq![
            "minecraft:command.setworldspawn"@,
            "minecraft:command.op"@,
            "minecraft:command.deop"@,
            "minecraft:command.kick"@,
            "pumpkin:command.plugin"@,
            "pumpkin:command.plugins"@,
            "minecraft:command.ban"@,
            "minecraft:command.banip"@,
            "minecraft:command.banlist"@,
            "minecraft:command.pardon"@,
            "minecraft:command.pardonip"@,
            "minecraft:command.whitelist"@,
            "minecraft:command.tick"@,
            "minecraft:command.transfer"@,
        ]);
        assert(descriptions_of(r@) =~= seq![
            "Sets the world spawn point"@,
            "Grants operator status to a player"@,
            "Revokes operator status from a player"@,
            "Removes players from the server"@,
            "Manages server plugins"@,
            "Lists all plugins loaded on the server"@,
            "Adds players to banlist"@,
            "Adds IP addresses to banlist"@,
            "Displays banned players or IP addresses"@,
            "Removes entries from the player banlist"@,
            "Removes entries from the IP banlist"@,
            "Manages server whitelist"@,
            "Triggers the tick event"@,
            "Transfers the player to another server"@,
        ]);
    }
    r
}

/// The permissions of the built-in commands of operator level four, in registration order.
pub fn level_4_permissions() -> (r: Vec<Permission>)
    ensures
        r@.len() == 1,
        forall|i: int| 0 <= i < r@.len() ==> (#[trigger] r@[i]).default == PermissionDefault::Op(PermissionLvl::Four),
        nodes_of(r@) == seq![
            "minecraft:command.stop"@,
        ],
        descriptions_of(r@) == seq![
            "Stops the server"@,
        ],
{
    let mut r: Vec<Permission> = Vec::new();
    r.push(Permission::new("minecraft:command.stop", "Stops the server", PermissionDefault::Op(PermissionLvl::Four)));
    proof {
        assert(nodes_of(r@) =~= seq![
            "minecraft:command.stop"@,
        ]);
        assert(descriptions_of(r@) =~= seq![
            "Stops the server"@,
        ]);
    }
    r
}

} // verus!
