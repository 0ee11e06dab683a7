use byteorder::{ByteOrder, LittleEndian};
use flate2::{Compress, Compression, FlushCompress};
use genie_rust::{
    decompress, AttackOrArmor, Bird, Building, BuildingAnnex, Civ, Creatable, DamageGraphic,
    DatFile, DeadFish, DecodeError, Effect, EffectCommand, Graphic, GraphicAngleSound,
    GraphicDelta, Inflation, PlayerColour, Projectile, RandomMaps, Reader, Report,
    ResearchLocation, ResourceCost, ResourceStorage, Sound, SoundItem, Stop, Task, Tech, TechTree,
    Terrain, TerrainBlock, TerrainRestriction, TileSize, TrainLocation, Type50, Unit, UnitHeaders,
    UnitParts, F32,
};
use std::fmt::Debug;

/// Gives values that differ from one another.
struct Gen(u32);

impl Gen {
    fn next(&mut self) -> u32 {
        self.0 += 1;
        self.0
    }

    fn i8(&mut self) -> i8 {
        ((self.next() * 7) % 200) as i32 as i8
    }

    fn i16(&mut self) -> i16 {
        (self.next() as i32 * 257 - 20000) as i16
    }

    fn i32(&mut self) -> i32 {
        self.next() as i32 * 65539 - 1_000_000
    }

    fn f32(&mut self) -> F32 {
        F32 { bits: (self.next() as f32 * 0.25 - 7.5).to_bits() }
    }

    fn name(&mut self) -> String {
        format!("name {}", self.next())
    }
}

/// Builds a buffer field by field.
struct Bytes(Vec<u8>);

impl Bytes {
    fn new() -> Bytes {
        Bytes(Vec::new())
    }

    fn u8(&mut self, v: u8) {
        self.0.push(v);
    }

    fn i8(&mut self, v: i8) {
        self.0.push(v as u8);
    }

    fn u16(&mut self, v: u16) {
        let mut b = [0u8; 2];
        LittleEndian::write_u16(&mut b, v);
        self.0.extend_from_slice(&b);
    }

    fn i16(&mut self, v: i16) {
        let mut b = [0u8; 2];
        LittleEndian::write_i16(&mut b, v);
        self.0.extend_from_slice(&b);
    }

    fn u32(&mut self, v: u32) {
        let mut b = [0u8; 4];
        LittleEndian::write_u32(&mut b, v);
        self.0.extend_from_slice(&b);
    }

    fn i32(&mut self, v: i32) {
        let mut b = [0u8; 4];
        LittleEndian::write_i32(&mut b, v);
        self.0.extend_from_slice(&b);
    }

    fn f32(&mut self, v: F32) {
        let mut b = [0u8; 4];
        LittleEndian::write_f32(&mut b, f32::from_bits(v.bits));
        self.0.extend_from_slice(&b);
    }

    /// Bytes that the decoder passes over.
    fn skip(&mut self, n: usize) {
        for i in 0..n {
            self.0.push(0xA0 + (i % 16) as u8);
        }
    }

    /// A name: a tag, the length, the text, all of it kept.
    fn name(&mut self, text: &str) {
        self.u16(0x0A60);
        self.u16(text.len() as u16);
        self.0.extend_from_slice(text.as_bytes());
    }
}

/// Holds a decoder to a record and its bytes: the record is read from the
/// bytes wherever they stand, exactly their length is taken, and no shorter
/// buffer gives anything or moves the reader.
fn check<T: PartialEq + Debug>(
    bytes: &[u8],
    want: &T,
    read: &dyn Fn(&mut Reader) -> Result<T, DecodeError>,
) {
    let n = bytes.len();
    let mut longer = bytes.to_vec();
    longer.extend_from_slice(&[0xEE; 3]);
    let mut reader = Reader::new(longer);
    let got = read(&mut reader).expect("the record is whole");
    assert_eq!(&got, want);
    assert_eq!(reader.position(), n);

    let mut shifted = vec![0x11u8; 5];
    shifted.extend_from_slice(bytes);
    let mut reader = Reader::new(shifted);
    reader.skip(5).unwrap();
    let got = read(&mut reader).expect("the record is whole");
    assert_eq!(&got, want);
    assert_eq!(reader.position(), n + 5);

    let step = if n > 2000 { n / 97 } else { 1 };
    let mut k = 0;
    while k < n {
        let mut reader = Reader::new(bytes[..k].to_vec());
        assert_eq!(read(&mut reader).err(), Some(DecodeError::Underrun), "prefix of {} bytes", k);
        assert_eq!(reader.position(), 0, "prefix of {} bytes", k);
        k += step;
    }
    let mut reader = Reader::new(bytes[..n - 1].to_vec());
    assert_eq!(read(&mut reader).err(), Some(DecodeError::Underrun));
    assert_eq!(reader.position(), 0);
}

fn float(v: F32) -> f32 {
    f32::from_bits(v.bits)
}

fn sample_attack_or_armor(g: &mut Gen) -> AttackOrArmor {
    AttackOrArmor {
        class_: g.i16(),
        amount: g.i16(),
    }
}

fn sample_building_annex(g: &mut Gen) -> BuildingAnnex {
    BuildingAnnex {
        unit_id: g.i16(),
        misplacement_x: g.f32(),
        misplacement_y: g.f32(),
    }
}

fn sample_resource_cost(g: &mut Gen) -> ResourceCost {
    ResourceCost {
        type_: g.i16(),
        amount: g.i16(),
        flag: g.i16(),
    }
}

fn sample_resource_storage(g: &mut Gen) -> ResourceStorage {
    ResourceStorage {
        type_: g.i16(),
        amount: g.f32(),
        flag: g.i8(),
    }
}

fn sample_graphic_delta(g: &mut Gen) -> GraphicDelta {
    GraphicDelta {
        graphic_id: g.i16(),
        padding_1: g.i16(),
        sprite_ptr: g.i32(),
        offset_x: g.i16(),
        offset_y: g.i16(),
        display_angle: g.i16(),
        padding_2: g.i16(),
    }
}

fn sample_graphic_angle_sound(g: &mut Gen) -> GraphicAngleSound {
    GraphicAngleSound {
        frame_num: g.i16(),
        sound_id: g.i16(),
        wwise_sound_id: g.i32(),
        frame_num_2: g.i16(),
        sound_id_2: g.i16(),
        wwise_sound_id_2: g.i32(),
        frame_num_3: g.i16(),
        sound_id_3: g.i16(),
        wwise_sound_id_3: g.i32(),
    }
}

fn sample_damage_graphic(g: &mut Gen) -> DamageGraphic {
    DamageGraphic {
        graphic_id: g.i16(),
        damage_percent: g.i16(),
        apply_mode: g.i8(),
    }
}

fn sample_projectile(g: &mut Gen) -> Projectile {
    Projectile {
        projectile_type: g.i8(),
        smart_mode: g.i8(),
        hit_mode: g.i8(),
        vanish_mode: g.i8(),
        area_effect_specials: g.i8(),
        projectile_arc: g.f32(),
    }
}

fn sample_dead_fish(g: &mut Gen) -> DeadFish {
    DeadFish {
        walking_graphic: g.i16(),
        running_graphic: g.i16(),
        rotation_speed: g.f32(),
        old_size_class: g.i8(),
        tracking_unit: g.i16(),
        tracking_unit_mode: g.i8(),
        tracking_unit_density: g.f32(),
        old_move_algorithm: g.i8(),
        turn_radius: g.f32(),
        turn_radius_speed: g.f32(),
        max_yaw_per_second_moving: g.f32(),
        stationary_yaw_revolution_time: g.f32(),
        max_yaw_per_second_stationary: g.f32(),
        min_collision_size_multiplier: g.f32(),
    }
}

fn sample_research_location(g: &mut Gen) -> ResearchLocation {
    ResearchLocation {
        location_id: g.i16(),
        research_time: g.i16(),
        button_id: g.i8(),
        hot_key_id: g.i32(),
    }
}

fn sample_effect_command(g: &mut Gen) -> EffectCommand {
    EffectCommand {
        type_: g.i8(),
        a: g.i16(),
        b: g.i16(),
        c: g.i16(),
        d: g.f32(),
    }
}

fn sample_tile_size(g: &mut Gen) -> TileSize {
    TileSize {
        width: g.i16(),
        height: g.i16(),
        delta_y: g.i16(),
    }
}

fn sample_player_colour(g: &mut Gen) -> PlayerColour {
    PlayerColour {
        id: g.i32(),
        base: g.i32(),
        outline: g.i32(),
    }
}

fn sample_train_location(g: &mut Gen) -> TrainLocation {
    TrainLocation {
        train_time: g.i16(),
        unit_id: g.i16(),
        button_id: g.i8(),
        hot_key_id: g.i32(),
    }
}

fn sample_task(g: &mut Gen) -> Task {
    Task {
        task_type: g.i16(),
        id: g.i16(),
        is_default: g.i8(),
        action_type: g.i16(),
        class_id: g.i16(),
        unit_id: g.i16(),
        terrain_id: g.i16(),
        resource_in: g.i16(),
        resource_multiplier: g.i16(),
        resource_out: g.i16(),
        unused_resource: g.i16(),
        work_value_1: g.f32(),
        work_value_2: g.f32(),
        work_range: g.f32(),
        auto_search_targets: g.i8(),
        search_wait_time: g.f32(),
        enable_targeting: g.i8(),
        combat_level_flag: g.i8(),
        gather_type: g.i16(),
        work_flag_2: g.i16(),
        target_diplomacy: g.i8(),
        carry_check: g.i8(),
        pick_for_construction: g.i8(),
        moving_graphic_id: g.i16(),
        proceeding_graphic_id: g.i16(),
        working_graphic_id: g.i16(),
        carrying_graphic_id: g.i16(),
        resource_gathering_sound_id: g.i16(),
        resource_deposit_sound_id: g.i16(),
        wwise_resource_gathering_sound_id: g.i32(),
        wwise_resource_deposit_sound_id: g.i32(),
        enabled: g.i16(),
    }
}

fn sample_sound_item(g: &mut Gen) -> SoundItem {
    SoundItem {
        filename: g.name(),
        resource_id: g.i32(),
    }
}

fn sample_tech(g: &mut Gen) -> Tech {
    Tech {
        name: g.name(),
    }
}

fn sample_graphic(g: &mut Gen) -> Graphic {
    Graphic {
        name: g.name(),
    }
}

fn sample_terrain(g: &mut Gen) -> Terrain {
    Terrain {
        name: g.name(),
    }
}

fn put_attack_or_armor(b: &mut Bytes, v: &AttackOrArmor) {
    b.i16(v.class_);
    b.i16(v.amount);
}

fn put_building_annex(b: &mut Bytes, v: &BuildingAnnex) {
    b.i16(v.unit_id);
    b.f32(v.misplacement_x);
    b.f32(v.misplacement_y);
}

fn put_resource_cost(b: &mut Bytes, v: &ResourceCost) {
    b.i16(v.type_);
    b.i16(v.amount);
    b.i16(v.flag);
}

fn put_resource_storage(b: &mut Bytes, v: &ResourceStorage) {
    b.i16(v.type_);
    b.f32(v.amount);
    b.i8(v.flag);
}

fn put_graphic_delta(b: &mut Bytes, v: &GraphicDelta) {
    b.i16(v.graphic_id);
    b.i16(v.padding_1);
    b.i32(v.sprite_ptr);
    b.i16(v.offset_x);
    b.i16(v.offset_y);
    b.i16(v.display_angle);
    b.i16(v.padding_2);
}

fn put_graphic_angle_sound(b: &mut Bytes, v: &GraphicAngleSound) {
    b.i16(v.frame_num);
    b.i16(v.sound_id);
    b.i32(v.wwise_sound_id);
    b.i16(v.frame_num_2);
    b.i16(v.sound_id_2);
    b.i32(v.wwise_sound_id_2);
    b.i16(v.frame_num_3);
    b.i16(v.sound_id_3);
    b.i32(v.wwise_sound_id_3);
}

fn put_damage_graphic(b: &mut Bytes, v: &DamageGraphic) {
    b.i16(v.graphic_id);
    b.i16(v.damage_percent);
    b.i8(v.apply_mode);
}

fn put_projectile(b: &mut Bytes, v: &Projectile) {
    b.i8(v.projectile_type);
    b.i8(v.smart_mode);
    b.i8(v.hit_mode);
    b.i8(v.vanish_mode);
    b.i8(v.area_effect_specials);
    b.f32(v.projectile_arc);
}

fn put_dead_fish(b: &mut Bytes, v: &DeadFish) {
    b.i16(v.walking_graphic);
    b.i16(v.running_graphic);
    b.f32(v.rotation_speed);
    b.i8(v.old_size_class);
    b.i16(v.tracking_unit);
    b.i8(v.tracking_unit_mode);
    b.f32(v.tracking_unit_density);
    b.i8(v.old_move_algorithm);
    b.f32(v.turn_radius);
    b.f32(v.turn_radius_speed);
    b.f32(v.max_yaw_per_second_moving);
    b.f32(v.stationary_yaw_revolution_time);
    b.f32(v.max_yaw_per_second_stationary);
    b.f32(v.min_collision_size_multiplier);
}

fn put_research_location(b: &mut Bytes, v: &ResearchLocation) {
    b.i16(v.location_id);
    b.i16(v.research_time);
    b.i8(v.button_id);
    b.i32(v.hot_key_id);
}

fn put_effect_command(b: &mut Bytes, v: &EffectCommand) {
    b.i8(v.type_);
    b.i16(v.a);
    b.i16(v.b);
    b.i16(v.c);
    b.f32(v.d);
}

fn put_tile_size(b: &mut Bytes, v: &TileSize) {
    b.i16(v.width);
    b.i16(v.height);
    b.i16(v.delta_y);
}
fn put_train_location(b: &mut Bytes, v: &TrainLocation, version: &str) {
    b.i16(v.train_time);
    b.i16(v.unit_id);
    b.i8(v.button_id);
    if version >= "VER 8.8" {
        b.i32(v.hot_key_id);
    }
}

fn put_task(b: &mut Bytes, v: &Task, version: &str) {
    b.i16(v.task_type);
    b.i16(v.id);
    b.i8(v.is_default);
    b.i16(v.action_type);
    b.i16(v.class_id);
    b.i16(v.unit_id);
    b.i16(v.terrain_id);
    b.i16(v.resource_in);
    b.i16(v.resource_multiplier);
    b.i16(v.resource_out);
    b.i16(v.unused_resource);
    b.f32(v.work_value_1);
    b.f32(v.work_value_2);
    b.f32(v.work_range);
    b.i8(v.auto_search_targets);
    b.f32(v.search_wait_time);
    b.i8(v.enable_targeting);
    b.i8(v.combat_level_flag);
    b.i16(v.gather_type);
    b.i16(v.work_flag_2);
    b.i8(v.target_diplomacy);
    b.i8(v.carry_check);
    b.i8(v.pick_for_construction);
    b.i16(v.moving_graphic_id);
    b.i16(v.proceeding_graphic_id);
    b.i16(v.working_graphic_id);
    b.i16(v.carrying_graphic_id);
    b.i16(v.resource_gathering_sound_id);
    b.i16(v.resource_deposit_sound_id);
    b.i32(v.wwise_resource_gathering_sound_id);
    b.i32(v.wwise_resource_deposit_sound_id);
    if version >= "VER 8.8" {
        b.i16(v.enabled);
    }
}

/// A record as a version stores it: what that version does not store has
/// its default.
fn sample_train_location_of(g: &mut Gen, version: &str) -> TrainLocation {
    let mut v = sample_train_location(g);
    if version < "VER 8.8" {
        v.hot_key_id = 16000;
    }
    v
}

fn sample_task_of(g: &mut Gen, version: &str) -> Task {
    let mut v = sample_task(g);
    if version < "VER 8.8" {
        v.enabled = -1;
    }
    v
}

fn sample_type50(g: &mut Gen, version: &str, attacks: usize, armours: usize) -> Type50 {
    let full = version >= "VER 8.4";
    Type50 {
        base_armor: g.i16(),
        attacks: (0..attacks).map(|_| sample_attack_or_armor(g)).collect(),
        armours: (0..armours).map(|_| sample_attack_or_armor(g)).collect(),
        defense_terrain_bonus: g.i16(),
        bonus_damage_resistance: g.f32(),
        max_range: g.f32(),
        blast_width: g.f32(),
        reload_time: g.f32(),
        projectile_unit_id: g.i16(),
        accuracy_percent: g.i16(),
        break_off_combat: g.i8(),
        frame_delay: g.i16(),
        graphic_displacement: vec![g.f32(), g.f32(), g.f32()],
        blast_attack_level: g.i8(),
        min_range: g.f32(),
        accuracy_dispersion: g.f32(),
        attack_graphic: g.i16(),
        displayed_melee_armour: g.i16(),
        displayed_attack: g.i16(),
        displayed_range: g.f32(),
        displayed_reload_time: g.f32(),
        blast_damage: g.f32(),
        damage_reflection: if full { g.f32() } else { F32 { bits: 0.0f32.to_bits() } },
        friendly_fire_damage: if full { g.f32() } else { F32 { bits: 1.0f32.to_bits() } },
        interrupt_frame: if full { g.i16() } else { -1 },
        garrison_firepower: if full { g.f32() } else { F32 { bits: 0.0f32.to_bits() } },
        attack_graphic_2: if full { g.i16() } else { -1 },
    }
}

fn put_type50(b: &mut Bytes, v: &Type50, version: &str) {
    b.i16(v.base_armor);
    b.i16(v.attacks.len() as i16);
    for a in &v.attacks {
        put_attack_or_armor(b, a);
    }
    b.i16(v.armours.len() as i16);
    for a in &v.armours {
        put_attack_or_armor(b, a);
    }
    b.i16(v.defense_terrain_bonus);
    b.f32(v.bonus_damage_resistance);
    b.f32(v.max_range);
    b.f32(v.blast_width);
    b.f32(v.reload_time);
    b.i16(v.projectile_unit_id);
    b.i16(v.accuracy_percent);
    b.i8(v.break_off_combat);
    b.i16(v.frame_delay);
    for x in &v.graphic_displacement {
        b.f32(*x);
    }
    b.i8(v.blast_attack_level);
    b.f32(v.min_range);
    b.f32(v.accuracy_dispersion);
    b.i16(v.attack_graphic);
    b.i16(v.displayed_melee_armour);
    b.i16(v.displayed_attack);
    b.f32(v.displayed_range);
    b.f32(v.displayed_reload_time);
    b.f32(v.blast_damage);
    if version >= "VER 8.4" {
        b.f32(v.damage_reflection);
        b.f32(v.friendly_fire_damage);
        b.i16(v.interrupt_frame);
        b.f32(v.garrison_firepower);
        b.i16(v.attack_graphic_2);
    }
}

fn sample_creatable(g: &mut Gen, version: &str, locations: usize) -> Creatable {
    let full = version >= "VER 8.4";
    let locations = if version >= "VER 8.8" { locations } else { 1 };
    Creatable {
        resource_costs: (0..3).map(|_| sample_resource_cost(g)).collect(),
        train_locations: (0..locations).map(|_| sample_train_location_of(g, version)).collect(),
        rear_attack_modifier: g.f32(),
        flank_attack_modifier: g.f32(),
        creatable_type: g.i8(),
        hero_mode: g.i8(),
        garrison_graphic: g.i32(),
        spawning_graphic: g.i16(),
        upgrade_graphic: g.i16(),
        hero_glow_graphic: g.i16(),
        idle_attack_graphic: if full { g.i16() } else { -1 },
        max_charge: g.f32(),
        recharge_rate: g.f32(),
        charge_event: g.i16(),
        charge_type: g.i16(),
        charge_target: if full { g.i16() } else { 0 },
        charge_projectile_unit: if full { g.i32() } else { -1 },
        attack_priority: if full { g.i8() } else { 0 },
        invulnerability_level: if full { g.f32() } else { F32 { bits: 0.0f32.to_bits() } },
        button_icon_id: if full { g.i16() } else { -1 },
        button_short_tooltip_id: if full { g.i32() } else { -1 },
        button_extended_tooltip_id: if full { g.i32() } else { -1 },
        button_hotkey_action: if full { g.i16() } else { -1 },
        min_conversion_time_mod: g.f32(),
        max_conversion_time_mod: g.f32(),
        conversion_chance_mod: g.f32(),
        total_projectiles: g.f32(),
        max_total_projectiles: g.i8(),
        projectile_spawning_area: vec![g.f32(), g.f32(), g.f32()],
        secondary_projectile_unit: g.i32(),
        special_graphic: g.i32(),
        special_ability: g.i8(),
        displayed_pierce_armour: g.i16(),
    }
}

fn put_creatable(b: &mut Bytes, v: &Creatable, version: &str) {
    for c in &v.resource_costs {
        put_resource_cost(b, c);
    }
    if version >= "VER 8.8" {
        b.i16(v.train_locations.len() as i16);
        for l in &v.train_locations {
            put_train_location(b, l, version);
        }
    } else {
        let l = &v.train_locations[0];
        b.i16(l.train_time);
        b.i16(l.unit_id);
        b.i8(l.button_id);
    }
    b.f32(v.rear_attack_modifier);
    b.f32(v.flank_attack_modifier);
    b.i8(v.creatable_type);
    b.i8(v.hero_mode);
    b.i32(v.garrison_graphic);
    b.i16(v.spawning_graphic);
    b.i16(v.upgrade_graphic);
    b.i16(v.hero_glow_graphic);
    if version >= "VER 8.4" {
        b.i16(v.idle_attack_graphic);
    }
    b.f32(v.max_charge);
    b.f32(v.recharge_rate);
    b.i16(v.charge_event);
    b.i16(v.charge_type);
    if version >= "VER 8.4" {
        b.i16(v.charge_target);
        b.i32(v.charge_projectile_unit);
    }
    if version >= "VER 8.4" {
        b.i8(v.attack_priority);
        b.f32(v.invulnerability_level);
        b.i16(v.button_icon_id);
        b.i32(v.button_short_tooltip_id);
        b.i32(v.button_extended_tooltip_id);
        b.i16(v.button_hotkey_action);
    }
    b.f32(v.min_conversion_time_mod);
    b.f32(v.max_conversion_time_mod);
    b.f32(v.conversion_chance_mod);
    b.f32(v.total_projectiles);
    b.i8(v.max_total_projectiles);
    for x in &v.projectile_spawning_area {
        b.f32(*x);
    }
    b.i32(v.secondary_projectile_unit);
    b.i32(v.special_graphic);
    b.i8(v.special_ability);
    b.i16(v.displayed_pierce_armour);
}

fn sample_building(g: &mut Gen) -> Building {
    Building {
        construction_graphic_id: g.i16(),
        snow_graphic_id: g.i16(),
        destruction_graphic_id: g.i16(),
        destruction_rubble_graphic_id: g.i16(),
        researching_graphic: g.i16(),
        research_completed_graphic: g.i16(),
        adjacent_mode: g.i16(),
        graphics_angle: g.i16(),
        disappears_when_built: g.i8(),
        stack_unit_id: g.i16(),
        foundation_terrain_id: g.i8(),
        old_overlap_id: g.i16(),
        tech_id: g.i16(),
        can_burn: g.i8(),
        annexes: (0..4).map(|_| sample_building_annex(g)).collect(),
        head_unit: g.i16(),
        transform_unit: g.i16(),
        transform_sound: g.i16(),
        construction_sound: g.i16(),
        wwise_transform_sound_id: g.i32(),
        wwise_construction_sound_id: g.i32(),
        garrison_type: g.i8(),
        garrison_heal_rate: g.f32(),
        garrison_repair_rate: g.f32(),
        pile_unit: g.i16(),
        looting_table: (0..6).map(|_| g.i8()).collect(),
    }
}

fn put_building(b: &mut Bytes, v: &Building) {
    b.i16(v.construction_graphic_id);
    b.i16(v.snow_graphic_id);
    b.i16(v.destruction_graphic_id);
    b.i16(v.destruction_rubble_graphic_id);
    b.i16(v.researching_graphic);
    b.i16(v.research_completed_graphic);
    b.i16(v.adjacent_mode);
    b.i16(v.graphics_angle);
    b.i8(v.disappears_when_built);
    b.i16(v.stack_unit_id);
    b.i8(v.foundation_terrain_id);
    b.i16(v.old_overlap_id);
    b.i16(v.tech_id);
    b.i8(v.can_burn);
    for a in &v.annexes {
        put_building_annex(b, a);
    }
    b.i16(v.head_unit);
    b.i16(v.transform_unit);
    b.i16(v.transform_sound);
    b.i16(v.construction_sound);
    b.i32(v.wwise_transform_sound_id);
    b.i32(v.wwise_construction_sound_id);
    b.i8(v.garrison_type);
    b.f32(v.garrison_heal_rate);
    b.f32(v.garrison_repair_rate);
    b.i16(v.pile_unit);
    for x in &v.looting_table {
        b.i8(*x);
    }
}

fn sample_bird(g: &mut Gen, version: &str, sites: usize, tasks: usize) -> Bird {
    let sites = if version >= "VER 7.7" { sites } else { 3 };
    Bird {
        default_task_id: g.i16(),
        search_radius: g.f32(),
        work_rate: g.f32(),
        drop_sites: (0..sites).map(|_| g.i16()).collect(),
        task_swap_group: g.i8(),
        attack_sound: g.i16(),
        move_sound: g.i16(),
        wwise_attack_sound_id: g.i32(),
        wwise_move_sound_id: g.i32(),
        run_pattern: g.i8(),
        tasks: (0..tasks).map(|_| sample_task_of(g, version)).collect(),
    }
}

fn put_bird(b: &mut Bytes, v: &Bird, version: &str) {
    b.i16(v.default_task_id);
    b.f32(v.search_radius);
    b.f32(v.work_rate);
    if version >= "VER 7.7" {
        b.i16(v.drop_sites.len() as i16);
    }
    for x in &v.drop_sites {
        b.i16(*x);
    }
    b.i8(v.task_swap_group);
    b.i16(v.attack_sound);
    b.i16(v.move_sound);
    b.i32(v.wwise_attack_sound_id);
    b.i32(v.wwise_move_sound_id);
    b.i8(v.run_pattern);
    b.i16(v.tasks.len() as i16);
    for t in &v.tasks {
        put_task(b, t, version);
    }
}

/// A unit of type `type_` as `version` stores it, with the records that the
/// ladder of type codes gives it.
fn sample_unit(g: &mut Gen, type_: u8, version: &str) -> Unit {
    let on_ladder = type_ != 10 && type_ != 90 && type_ >= 20;
    Unit {
        type_,
        id: g.i16(),
        name: g.name(),
        hit_points: g.i16(),
        line_of_sight: g.f32(),
        speed: if on_ladder { g.f32() } else { F32 { bits: 0.0f32.to_bits() } },
        dead_fish: if on_ladder && type_ >= 30 { Some(sample_dead_fish(g)) } else { None },
        bird: if on_ladder && type_ >= 40 { Some(sample_bird(g, version, 2, 2)) } else { None },
        type_50: if on_ladder && type_ >= 50 {
            Some(sample_type50(g, version, 2, 1))
        } else {
            None
        },
        projectile: if on_ladder && type_ == 60 { Some(sample_projectile(g)) } else { None },
        creatable: if on_ladder && type_ >= 70 {
            Some(sample_creatable(g, version, 2))
        } else {
            None
        },
        building: if on_ladder && type_ == 80 { Some(sample_building(g)) } else { None },
    }
}

fn put_unit(b: &mut Bytes, v: &Unit, version: &str, damage_graphics: u8) {
    let mut g = Gen(5000);
    b.u8(v.type_);
    b.i16(v.id);
    b.skip(19);
    b.i16(v.hit_points);
    b.f32(v.line_of_sight);
    b.skip(75);
    if version < "VER 8.8" {
        b.skip(4);
    }
    b.skip(33);
    for _ in 0..3 {
        put_resource_storage(b, &sample_resource_storage(&mut g));
    }
    b.u8(damage_graphics);
    for _ in 0..damage_graphics {
        put_damage_graphic(b, &sample_damage_graphic(&mut g));
    }
    b.skip(22);
    b.name(&v.name);
    b.skip(4);
    if v.type_ != 10 && v.type_ != 90 {
        if v.type_ >= 20 {
            b.f32(v.speed);
            if let Some(x) = &v.dead_fish {
                put_dead_fish(b, x);
            }
            if let Some(x) = &v.bird {
                put_bird(b, x, version);
            }
            if let Some(x) = &v.type_50 {
                put_type50(b, x, version);
            }
            if let Some(x) = &v.projectile {
                put_projectile(b, x);
            }
            if let Some(x) = &v.creatable {
                put_creatable(b, x, version);
            }
            if let Some(x) = &v.building {
                put_building(b, x);
            }
        }
    }
}

fn unit_bytes(v: &Unit, version: &str, damage_graphics: u8) -> Vec<u8> {
    let mut b = Bytes::new();
    put_unit(&mut b, v, version, damage_graphics);
    b.0
}

fn put_unit_headers(b: &mut Bytes, v: &UnitHeaders, version: &str, tasks: u16) {
    let mut g = Gen(6000);
    b.u8(v.exists);
    if v.exists != 0 {
        b.u16(tasks);
        for _ in 0..tasks {
            put_task(b, &sample_task_of(&mut g, version), version);
        }
    }
}

fn sample_civ(g: &mut Gen, version: &str, types: &[Option<u8>], resources: usize) -> Civ {
    Civ {
        name: g.name(),
        units: types.iter().map(|t| t.map(|t| sample_unit(g, t, version))).collect(),
        resources: (0..resources).map(|_| g.f32()).collect(),
    }
}

fn put_civ(b: &mut Bytes, v: &Civ, version: &str) {
    b.skip(1);
    b.name(&v.name);
    b.u16(v.resources.len() as u16);
    b.skip(4);
    for x in &v.resources {
        b.f32(*x);
    }
    b.skip(1);
    b.u16(v.units.len() as u16);
    for (i, u) in v.units.iter().enumerate() {
        b.i32(if u.is_some() { 0x1000 + i as i32 } else { 0 });
    }
    for u in v.units.iter().flatten() {
        put_unit(b, u, version, 1);
    }
}

fn put_sound_item(b: &mut Bytes, v: &SoundItem) {
    b.name(&v.filename);
    b.i32(v.resource_id);
    b.skip(6);
}

fn sample_sound(g: &mut Gen, items: usize) -> Sound {
    Sound { id: g.i16(), items: (0..items).map(|_| sample_sound_item(g)).collect() }
}

fn put_sound(b: &mut Bytes, v: &Sound) {
    b.i16(v.id);
    b.skip(2);
    b.u16(v.items.len() as u16);
    b.skip(6);
    for i in &v.items {
        put_sound_item(b, i);
    }
}

fn put_graphic(b: &mut Bytes, v: &Graphic, deltas: u16, angle_sounds_used: u8, angles: u16) {
    let mut g = Gen(7000);
    b.name(&v.name);
    b.name("file");
    b.name("particle effect");
    b.skip(18);
    b.u16(deltas);
    b.skip(6);
    b.u8(angle_sounds_used);
    b.skip(2);
    b.u16(angles);
    b.skip(17);
    for _ in 0..deltas {
        put_graphic_delta(b, &sample_graphic_delta(&mut g));
    }
    if angle_sounds_used != 0 {
        for _ in 0..angles {
            put_graphic_angle_sound(b, &sample_graphic_angle_sound(&mut g));
        }
    }
}

fn sample_effect(g: &mut Gen, commands: usize) -> Effect {
    Effect { name: g.name(), commands: (0..commands).map(|_| sample_effect_command(g)).collect() }
}

fn put_effect(b: &mut Bytes, v: &Effect) {
    b.name(&v.name);
    b.i16(v.commands.len() as i16);
    for c in &v.commands {
        put_effect_command(b, c);
    }
}

fn put_tech(b: &mut Bytes, v: &Tech, version: &str, locations: i16) {
    let mut g = Gen(8000);
    b.skip(12);
    b.skip(3 * 5);
    b.skip(10);
    if version >= "VER 8.8" {
        b.skip(8);
    } else {
        b.skip(2 + 4 + 4 + 2);
    }
    b.skip(2 + 2 + 2);
    if version < "VER 8.8" {
        b.skip(1);
    }
    b.skip(8);
    if version < "VER 8.8" {
        b.skip(4);
    }
    b.name(&v.name);
    b.i8(1);
    if version >= "VER 8.8" {
        b.i16(locations);
        for _ in 0..locations {
            put_research_location(b, &sample_research_location(&mut g));
        }
    }
}

fn put_terrain(b: &mut Bytes, v: &Terrain) {
    b.skip(4);
    b.skip(4);
    b.name(&v.name);
    b.name("second name");
    b.skip(28);
    b.name("mask");
    b.skip(3 + 2 + 3 + 4 + 8 + 4 + 4 + 2);
    for _ in 0..19 {
        b.skip(6);
    }
    b.skip(2 + 4 + 60 + 60 + 60 + 30 + 2 + 2);
}

fn put_terrain_block(b: &mut Bytes, v: &TerrainBlock) {
    let mut g = Gen(9000);
    b.skip(4);
    b.i32(v.map_pointer);
    b.skip(4 * 4);
    for _ in 0..19 {
        put_tile_size(b, &sample_tile_size(&mut g));
    }
    b.skip(2);
    for _ in 0..200 {
        put_terrain(b, &sample_terrain(&mut g));
    }
    b.skip(14 * 2 + 6 * 4);
    b.i32(v.search_map_ptr);
    b.skip(4 + 3);
}

fn put_player_colour(b: &mut Bytes, v: &PlayerColour) {
    b.i32(v.id);
    b.i32(v.base);
    b.i32(v.outline);
    b.skip(24);
}

const VERSIONS: [&str; 7] =
    ["VER 7.6", "VER 7.7", "VER 7.8", "VER 8.3", "VER 8.4", "VER 8.8", "VER 9.0"];

#[test]
fn fixed_records_are_read_field_by_field() {
    let mut g = Gen(0);
    let mut b = Bytes::new();
    let v = sample_attack_or_armor(&mut g);
    put_attack_or_armor(&mut b, &v);
    assert_eq!(b.0.len(), 4);
    check(&b.0, &v, &|r| AttackOrArmor::read_from(r));

    let mut b = Bytes::new();
    let v = sample_building_annex(&mut g);
    put_building_annex(&mut b, &v);
    assert_eq!(b.0.len(), 10);
    check(&b.0, &v, &|r| BuildingAnnex::read_from(r));

    let mut b = Bytes::new();
    let v = sample_resource_cost(&mut g);
    put_resource_cost(&mut b, &v);
    assert_eq!(b.0.len(), 6);
    check(&b.0, &v, &|r| ResourceCost::read_from(r));

    let mut b = Bytes::new();
    let v = sample_resource_storage(&mut g);
    put_resource_storage(&mut b, &v);
    assert_eq!(b.0.len(), 7);
    check(&b.0, &v, &|r| ResourceStorage::read_from(r));

    let mut b = Bytes::new();
    let v = sample_graphic_delta(&mut g);
    put_graphic_delta(&mut b, &v);
    assert_eq!(b.0.len(), 16);
    check(&b.0, &v, &|r| GraphicDelta::read_from(r));

    let mut b = Bytes::new();
    let v = sample_graphic_angle_sound(&mut g);
    put_graphic_angle_sound(&mut b, &v);
    assert_eq!(b.0.len(), 24);
    check(&b.0, &v, &|r| GraphicAngleSound::read_from(r));

    let mut b = Bytes::new();
    let v = sample_damage_graphic(&mut g);
    put_damage_graphic(&mut b, &v);
    assert_eq!(b.0.len(), 5);
    check(&b.0, &v, &|r| DamageGraphic::read_from(r));

    let mut b = Bytes::new();
    let v = sample_projectile(&mut g);
    put_projectile(&mut b, &v);
    assert_eq!(b.0.len(), 9);
    check(&b.0, &v, &|r| Projectile::read_from(r));

    let mut b = Bytes::new();
    let v = sample_dead_fish(&mut g);
    put_dead_fish(&mut b, &v);
    assert_eq!(b.0.len(), 41);
    check(&b.0, &v, &|r| DeadFish::read_from(r));

    let mut b = Bytes::new();
    let v = sample_research_location(&mut g);
    put_research_location(&mut b, &v);
    assert_eq!(b.0.len(), 9);
    check(&b.0, &v, &|r| ResearchLocation::read_from(r));

    let mut b = Bytes::new();
    let v = sample_effect_command(&mut g);
    put_effect_command(&mut b, &v);
    assert_eq!(b.0.len(), 11);
    check(&b.0, &v, &|r| EffectCommand::read_from(r));

    let mut b = Bytes::new();
    let v = sample_tile_size(&mut g);
    put_tile_size(&mut b, &v);
    assert_eq!(b.0.len(), 6);
    check(&b.0, &v, &|r| TileSize::read_from(r));

    let mut b = Bytes::new();
    let v = sample_player_colour(&mut g);
    put_player_colour(&mut b, &v);
    assert_eq!(b.0.len(), 36);
    check(&b.0, &v, &|r| PlayerColour::read_from(r));

    let mut b = Bytes::new();
    let v = sample_building(&mut g);
    put_building(&mut b, &v);
    assert_eq!(b.0.len(), 98);
    check(&b.0, &v, &|r| Building::read_from(r));
}

#[test]
fn an_attack_is_two_little_endian_shorts() {
    let mut r = Reader::new(vec![0x04, 0x00, 0xF6, 0xFF]);
    assert_eq!(AttackOrArmor::read_from(&mut r), Ok(AttackOrArmor { class_: 4, amount: -10 }));
}

#[test]
fn a_train_location_has_its_hot_key_from_8_8_on() {
    for version in VERSIONS {
        let mut g = Gen(10);
        let v = sample_train_location_of(&mut g, version);
        let mut b = Bytes::new();
        put_train_location(&mut b, &v, version);
        assert_eq!(b.0.len(), if version >= "VER 8.8" { 9 } else { 5 });
        assert_eq!(v.hot_key_id == 16000, version < "VER 8.8");
        check(&b.0, &v, &|r| TrainLocation::read_from(r, version));
    }
}

#[test]
fn the_same_bytes_give_the_default_before_the_threshold_and_the_value_after() {
    let mut bytes = Bytes::new();
    bytes.i16(100);
    bytes.i16(7);
    bytes.i8(3);
    bytes.i32(123_456);
    let before = TrainLocation::read_from(&mut Reader::new(bytes.0.clone()), "VER 8.7").unwrap();
    let after = TrainLocation::read_from(&mut Reader::new(bytes.0.clone()), "VER 8.8").unwrap();
    assert_eq!(before.hot_key_id, 16000);
    assert_eq!(after.hot_key_id, 123_456);
    assert_eq!((before.train_time, before.unit_id, before.button_id), (100, 7, 3));
    assert_eq!((after.train_time, after.unit_id, after.button_id), (100, 7, 3));
}

#[test]
fn a_task_can_be_switched_off_from_8_8_on() {
    for version in VERSIONS {
        let mut g = Gen(20);
        let v = sample_task_of(&mut g, version);
        let mut b = Bytes::new();
        put_task(&mut b, &v, version);
        assert_eq!(b.0.len(), if version >= "VER 8.8" { 69 } else { 67 });
        assert_eq!(v.enabled == -1, version < "VER 8.8");
        check(&b.0, &v, &|r| Task::read_from(r, version));
    }
}

#[test]
fn a_combat_record_has_its_later_fields_from_8_4_on() {
    for version in VERSIONS {
        for (attacks, armours) in [(0, 0), (1, 0), (0, 2), (3, 2)] {
            let mut g = Gen(30);
            let v = sample_type50(&mut g, version, attacks, armours);
            let mut b = Bytes::new();
            put_type50(&mut b, &v, version);
            let rest = if version >= "VER 8.4" { 80 } else { 64 };
            assert_eq!(b.0.len(), 6 + 4 * (attacks + armours) + rest);
            check(&b.0, &v, &|r| Type50::read_from(r, version));
        }
    }
}

#[test]
fn a_combat_record_before_8_4_has_the_defaults() {
    let mut g = Gen(31);
    let v = sample_type50(&mut g, "VER 8.3", 1, 1);
    let mut b = Bytes::new();
    put_type50(&mut b, &v, "VER 8.3");
    let got = Type50::read_from(&mut Reader::new(b.0), "VER 8.3").unwrap();
    assert_eq!(float(got.damage_reflection), 0.0);
    assert_eq!(float(got.friendly_fire_damage), 1.0);
    assert_eq!(got.interrupt_frame, -1);
    assert_eq!(float(got.garrison_firepower), 0.0);
    assert_eq!(got.attack_graphic_2, -1);
}

#[test]
fn a_negative_count_stands_for_no_items() {
    let mut g = Gen(32);
    let v = sample_type50(&mut g, "VER 8.8", 0, 0);
    let mut b = Bytes::new();
    put_type50(&mut b, &v, "VER 8.8");
    LittleEndian::write_i16(&mut b.0[2..4], -3);
    LittleEndian::write_i16(&mut b.0[4..6], -1);
    check(&b.0, &v, &|r| Type50::read_from(r, "VER 8.8"));
}

#[test]
fn a_creation_record_follows_the_version() {
    for version in VERSIONS {
        for locations in [0, 1, 3] {
            let mut g = Gen(40);
            let v = sample_creatable(&mut g, version, locations);
            let mut b = Bytes::new();
            put_creatable(&mut b, &v, version);
            let listed = if version >= "VER 8.8" { 2 + 9 * locations } else { 5 };
            let rest = if version >= "VER 8.4" { 97 } else { 72 };
            assert_eq!(b.0.len(), 18 + listed + rest);
            check(&b.0, &v, &|r| Creatable::read_from(r, version));
        }
    }
}

#[test]
fn a_creation_record_before_8_8_has_one_location_with_the_default_hot_key() {
    let mut g = Gen(41);
    let v = sample_creatable(&mut g, "VER 8.4", 0);
    let mut b = Bytes::new();
    put_creatable(&mut b, &v, "VER 8.4");
    let got = Creatable::read_from(&mut Reader::new(b.0), "VER 8.4").unwrap();
    assert_eq!(got.train_locations.len(), 1);
    assert_eq!(got.train_locations[0].hot_key_id, 16000);
    assert_eq!(got.resource_costs.len(), 3);
    assert_eq!(got.projectile_spawning_area.len(), 3);
}

#[test]
fn a_creation_record_before_8_4_has_the_defaults() {
    let mut g = Gen(42);
    let v = sample_creatable(&mut g, "VER 8.3", 0);
    let mut b = Bytes::new();
    put_creatable(&mut b, &v, "VER 8.3");
    let got = Creatable::read_from(&mut Reader::new(b.0), "VER 8.3").unwrap();
    assert_eq!(got.idle_attack_graphic, -1);
    assert_eq!(got.charge_target, 0);
    assert_eq!(got.charge_projectile_unit, -1);
    assert_eq!(got.attack_priority, 0);
    assert_eq!(float(got.invulnerability_level), 0.0);
    assert_eq!(got.button_icon_id, -1);
    assert_eq!(got.button_short_tooltip_id, -1);
    assert_eq!(got.button_extended_tooltip_id, -1);
    assert_eq!(got.button_hotkey_action, -1);
}

#[test]
fn drop_sites_are_counted_from_7_7_on() {
    for version in VERSIONS {
        for (sites, tasks) in [(0, 0), (3, 1), (5, 2)] {
            let mut g = Gen(50);
            let v = sample_bird(&mut g, version, sites, tasks);
            let mut b = Bytes::new();
            put_bird(&mut b, &v, version);
            let counted = version >= "VER 7.7";
            assert_eq!(v.drop_sites.len(), if counted { sites } else { 3 });
            let task = if version >= "VER 8.8" { 69 } else { 67 };
            let head = if counted { 12 } else { 10 };
            assert_eq!(b.0.len(), head + 2 * v.drop_sites.len() + 16 + task * tasks);
            check(&b.0, &v, &|r| Bird::read_from(r, version));
        }
    }
}

#[test]
fn at_7_7_itself_the_drop_sites_are_counted() {
    let mut bytes = Bytes::new();
    bytes.skip(10);
    bytes.i16(0);
    bytes.skip(14);
    bytes.i16(0);
    let got = Bird::read_from(&mut Reader::new(bytes.0.clone()), "VER 7.7").unwrap();
    assert!(got.drop_sites.is_empty());
    assert!(got.tasks.is_empty());

    let mut bytes = Bytes::new();
    bytes.skip(10);
    bytes.i16(2);
    bytes.i16(11);
    bytes.i16(12);
    bytes.skip(14);
    bytes.i16(0);
    bytes.skip(2);
    let mut reader = Reader::new(bytes.0.clone());
    let at = Bird::read_from(&mut reader, "VER 7.7").unwrap();
    assert_eq!(at.drop_sites, vec![11, 12]);
    assert_eq!(reader.position(), 32);
    let mut reader = Reader::new(bytes.0);
    let before = Bird::read_from(&mut reader, "VER 7.6").unwrap();
    assert_eq!(before.drop_sites, vec![2, 11, 12]);
    assert_eq!(reader.position(), 32);
}

#[test]
fn the_type_code_decides_what_a_unit_has() {
    for version in VERSIONS {
        for type_ in [0u8, 10, 15, 20, 25, 30, 40, 50, 60, 61, 70, 80, 81, 90, 100, 255] {
            let mut g = Gen(60);
            let v = sample_unit(&mut g, type_, version);
            let bytes = unit_bytes(&v, version, 2);
            check(&bytes, &v, &|r| Unit::read_from(r, version));

            let none = type_ == 10 || type_ == 90;
            assert_eq!(float(v.speed) != 0.0, type_ >= 20 && !none);
            assert_eq!(v.dead_fish.is_some(), type_ >= 30 && !none);
            assert_eq!(v.bird.is_some(), type_ >= 40 && !none);
            assert_eq!(v.type_50.is_some(), type_ >= 50 && !none);
            assert_eq!(v.projectile.is_some(), type_ == 60);
            assert_eq!(v.creatable.is_some(), type_ >= 70 && !none);
            assert_eq!(v.building.is_some(), type_ == 80);

            let parts = UnitParts::of(type_);
            assert_eq!(parts.speed, type_ >= 20 && !none);
            assert_eq!(parts.dead_fish, v.dead_fish.is_some());
            assert_eq!(parts.bird, v.bird.is_some());
            assert_eq!(parts.type_50, v.type_50.is_some());
            assert_eq!(parts.projectile, v.projectile.is_some());
            assert_eq!(parts.creatable, v.creatable.is_some());
            assert_eq!(parts.building, v.building.is_some());
        }
    }
}

#[test]
fn a_unit_of_type_80_has_everything_but_a_projectile() {
    let mut g = Gen(61);
    let v = sample_unit(&mut g, 80, "VER 8.8");
    let bytes = unit_bytes(&v, "VER 8.8", 0);
    let got = Unit::read_from(&mut Reader::new(bytes), "VER 8.8").unwrap();
    assert!(got.dead_fish.is_some());
    assert!(got.bird.is_some());
    assert!(got.type_50.is_some());
    assert!(got.projectile.is_none());
    assert!(got.creatable.is_some());
    assert!(got.building.is_some());
    assert_eq!(got.attacks(), got.type_50.as_ref().unwrap().attacks);
    assert_eq!(got.armours(), got.type_50.as_ref().unwrap().armours);
    assert_eq!(got.attacks().len(), 2);
    assert_eq!(got.armours().len(), 1);
}

#[test]
fn a_unit_without_a_combat_record_has_no_attacks() {
    let mut g = Gen(62);
    let v = sample_unit(&mut g, 40, "VER 8.8");
    assert!(v.attacks().is_empty());
    assert!(v.armours().is_empty());
}

#[test]
fn the_head_of_a_unit_is_four_bytes_longer_before_8_8() {
    let mut g = Gen(63);
    let old = unit_bytes(&sample_unit(&mut g, 10, "VER 8.4"), "VER 8.4", 3);
    let mut g = Gen(63);
    let new = unit_bytes(&sample_unit(&mut g, 10, "VER 8.8"), "VER 8.8", 3);
    assert_eq!(old.len(), new.len() + 4);
    let mut g = Gen(63);
    let name = sample_unit(&mut g, 10, "VER 8.8").name.len();
    assert_eq!(new.len(), 136 + 21 + 1 + 3 * 5 + 22 + 4 + name + 4);
}

#[test]
fn unit_headers_pass_over_their_tasks() {
    for version in VERSIONS {
        for (exists, tasks) in [(0u8, 0u16), (1, 0), (1, 3), (7, 1)] {
            let v = UnitHeaders { exists };
            let mut b = Bytes::new();
            put_unit_headers(&mut b, &v, version, tasks);
            let task = if version >= "VER 8.8" { 69 } else { 67 };
            assert_eq!(b.0.len(), if exists == 0 { 1 } else { 3 + task * tasks as usize });
            check(&b.0, &v, &|r| UnitHeaders::read_from(r, version));
        }
    }
}

#[test]
fn a_civilisation_has_one_slot_for_each_address() {
    for version in ["VER 7.6", "VER 7.7", "VER 8.4", "VER 8.8"] {
        for types in [
            vec![],
            vec![None],
            vec![Some(10)],
            vec![None, Some(70), None, None, Some(20), Some(80), None],
        ] {
            let mut g = Gen(70);
            let v = sample_civ(&mut g, version, &types, 4);
            let mut b = Bytes::new();
            put_civ(&mut b, &v, version);
            check(&b.0, &v, &|r| Civ::read_from(r, version));
            let got = Civ::read_from(&mut Reader::new(b.0), version).unwrap();
            assert_eq!(got.units.len(), types.len());
            for (slot, type_) in got.units.iter().zip(&types) {
                assert_eq!(slot.is_some(), type_.is_some());
            }
        }
    }
}

#[test]
fn empty_slots_take_no_bytes() {
    let mut g = Gen(71);
    let v = sample_civ(&mut g, "VER 8.8", &[None, None, None], 2);
    let mut b = Bytes::new();
    put_civ(&mut b, &v, "VER 8.8");
    let name = v.name.len();
    assert_eq!(b.0.len(), 1 + 4 + name + 6 + 2 * 4 + 3 + 3 * 4);
    check(&b.0, &v, &|r| Civ::read_from(r, "VER 8.8"));
}

#[test]
fn sounds_hold_their_items() {
    for items in [0, 1, 4] {
        let mut g = Gen(80);
        let v = sample_sound(&mut g, items);
        let mut b = Bytes::new();
        put_sound(&mut b, &v);
        check(&b.0, &v, &|r| Sound::read_from(r));
    }
    let mut g = Gen(81);
    let v = sample_sound_item(&mut g);
    let mut b = Bytes::new();
    put_sound_item(&mut b, &v);
    assert_eq!(b.0.len(), 4 + v.filename.len() + 10);
    check(&b.0, &v, &|r| SoundItem::read_from(r));
}

#[test]
fn a_graphic_is_passed_over_to_its_end() {
    for (deltas, used, angles) in [(0u16, 0u8, 0u16), (2, 0, 5), (2, 1, 5), (0, 9, 1)] {
        let mut g = Gen(90);
        let v = sample_graphic(&mut g);
        let mut b = Bytes::new();
        put_graphic(&mut b, &v, deltas, used, angles);
        let names = 3 * 4 + v.name.len() + "file".len() + "particle effect".len();
        let sounds = if used != 0 { 24 * angles as usize } else { 0 };
        assert_eq!(b.0.len(), names + 48 + 16 * deltas as usize + sounds);
        check(&b.0, &v, &|r| Graphic::read_from(r, "VER 8.8"));
    }
}

#[test]
fn effects_hold_their_commands() {
    for commands in [0, 1, 3] {
        let mut g = Gen(100);
        let v = sample_effect(&mut g, commands);
        let mut b = Bytes::new();
        put_effect(&mut b, &v);
        assert_eq!(b.0.len(), 4 + v.name.len() + 2 + 11 * commands);
        check(&b.0, &v, &|r| Effect::read_from(r));
    }
}

#[test]
fn a_technology_lists_its_research_locations_from_8_8_on() {
    for version in VERSIONS {
        for locations in [0i16, 2] {
            let mut g = Gen(110);
            let v = sample_tech(&mut g);
            let mut b = Bytes::new();
            put_tech(&mut b, &v, version, locations);
            let name = 4 + v.name.len();
            if version >= "VER 8.8" {
                assert_eq!(b.0.len(), 59 + name + 3 + 9 * locations as usize);
            } else {
                assert_eq!(b.0.len(), 68 + name + 1);
            }
            check(&b.0, &v, &|r| Tech::read_from(r, version));
        }
    }
}

#[test]
fn the_marker_of_the_technology_tree_reads_nothing() {
    let mut r = Reader::new(vec![1, 2, 3]);
    assert_eq!(TechTree::read_from(&mut r), Ok(TechTree { exists: true }));
    assert_eq!(r.position(), 0);
    let mut r = Reader::new(vec![]);
    assert_eq!(TechTree::read_from(&mut r), Ok(TechTree { exists: true }));
}

#[test]
fn a_terrain_restriction_takes_twenty_bytes_for_each_terrain() {
    for terrains in [0usize, 1, 42] {
        let bytes = vec![0x33u8; 20 * terrains];
        let want = TerrainRestriction { terrains_count: terrains as i32 };
        if terrains == 0 {
            let mut r = Reader::new(vec![]);
            assert_eq!(TerrainRestriction::read_from(&mut r, 0), Ok(want));
            assert_eq!(r.position(), 0);
        } else {
            check(&bytes, &want, &|r| TerrainRestriction::read_from(r, terrains));
        }
    }
    let mut r = Reader::new(vec![0u8; 100]);
    assert_eq!(TerrainRestriction::read_from(&mut r, usize::MAX), Err(DecodeError::Underrun));
    assert_eq!(r.position(), 0);
}

#[test]
fn a_terrain_keeps_its_first_name() {
    let mut g = Gen(120);
    let v = sample_terrain(&mut g);
    let mut b = Bytes::new();
    put_terrain(&mut b, &v);
    let names = 3 * 4 + v.name.len() + "second name".len() + "mask".len();
    assert_eq!(b.0.len(), 8 + names + 28 + 364);
    check(&b.0, &v, &|r| Terrain::read_from(r));
}

#[test]
fn the_terrain_block_holds_two_hundred_terrains() {
    let v = TerrainBlock { map_pointer: 0x0102_0304, search_map_ptr: -5 };
    let mut b = Bytes::new();
    put_terrain_block(&mut b, &v);
    check(&b.0, &v, &|r| TerrainBlock::read_from(r));
}

#[test]
fn the_random_maps_are_a_count_and_an_address() {
    let mut b = Bytes::new();
    b.u32(0);
    b.u32(0xDEAD_BEEF);
    check(&b.0, &RandomMaps {}, &|r| RandomMaps::read_from(r));
    let mut b = Bytes::new();
    b.u32(3);
    b.u32(0);
    b.skip(50);
    let mut r = Reader::new(b.0);
    assert_eq!(RandomMaps::read_from(&mut r), Ok(RandomMaps {}));
    assert_eq!(r.position(), 8);
}

/// What an archive is made of.
struct Parts {
    tag: [u8; 8],
    restrictions: u16,
    terrains: u16,
    colours: Vec<PlayerColour>,
    sounds: Vec<Sound>,
    graphics: Vec<Graphic>,
    random_maps: u32,
    effects: Vec<Effect>,
    headers: Vec<UnitHeaders>,
    civs: Vec<Civ>,
    techs: Vec<Tech>,
    time_slice: i32,
}

/// Where the sections of an archive start in its bytes.
#[derive(Default)]
struct Marks {
    restrictions: usize,
    colours: usize,
    sounds: usize,
    graphics: usize,
    terrain_block: usize,
    random_maps: usize,
    effects: usize,
    headers: usize,
    civs: usize,
    each_civ: Vec<usize>,
    techs: usize,
    time_slice: usize,
    end: usize,
}

fn parts(version: &str, civs: usize) -> Parts {
    let mut g = Gen(1000);
    let mut tag = [0u8; 8];
    tag[..version.len()].copy_from_slice(version.as_bytes());
    Parts {
        tag,
        restrictions: 3,
        terrains: 5,
        colours: (0..2).map(|_| sample_player_colour(&mut g)).collect(),
        sounds: (0..3).map(|i| sample_sound(&mut g, i)).collect(),
        graphics: (0..2).map(|_| sample_graphic(&mut g)).collect(),
        random_maps: 0,
        effects: (0..2).map(|i| sample_effect(&mut g, i + 1)).collect(),
        headers: vec![UnitHeaders { exists: 0 }, UnitHeaders { exists: 1 }],
        civs: (0..civs)
            .map(|_| sample_civ(&mut g, version, &[Some(70), None, Some(10), Some(80)], 3))
            .collect(),
        techs: (0..3).map(|_| sample_tech(&mut g)).collect(),
        time_slice: 0x0BAD_CAFE,
    }
}

fn archive(p: &Parts, version: &str) -> (Vec<u8>, Marks) {
    let mut m = Marks::default();
    let mut b = Bytes::new();
    b.0.extend_from_slice(&p.tag);
    m.restrictions = b.0.len();
    b.u16(p.restrictions);
    b.u16(p.terrains);
    b.skip(p.restrictions as usize * 4 * 2);
    for _ in 0..p.restrictions {
        b.skip(p.terrains as usize * 4);
        b.skip(p.terrains as usize * 16);
    }
    m.colours = b.0.len();
    b.u16(p.colours.len() as u16);
    for c in &p.colours {
        put_player_colour(&mut b, c);
    }
    m.sounds = b.0.len();
    b.u16(p.sounds.len() as u16);
    for s in &p.sounds {
        put_sound(&mut b, s);
    }
    m.graphics = b.0.len();
    b.u16(p.graphics.len() as u16);
    b.skip(p.graphics.len() * 4);
    for (i, x) in p.graphics.iter().enumerate() {
        put_graphic(&mut b, x, i as u16, i as u8, 2);
    }
    m.terrain_block = b.0.len();
    put_terrain_block(&mut b, &TerrainBlock { map_pointer: 1, search_map_ptr: 2 });
    m.random_maps = b.0.len();
    b.u32(p.random_maps);
    b.u32(0x1234_5678);
    m.effects = b.0.len();
    b.u32(p.effects.len() as u32);
    for e in &p.effects {
        put_effect(&mut b, e);
    }
    m.headers = b.0.len();
    b.u32(p.headers.len() as u32);
    for h in &p.headers {
        put_unit_headers(&mut b, h, version, 2);
    }
    m.civs = b.0.len();
    b.u16(p.civs.len() as u16);
    for c in &p.civs {
        m.each_civ.push(b.0.len());
        put_civ(&mut b, c, version);
    }
    m.techs = b.0.len();
    b.u16(p.techs.len() as u16);
    for t in &p.techs {
        put_tech(&mut b, t, version, 1);
    }
    m.time_slice = b.0.len();
    b.i32(p.time_slice);
    m.end = b.0.len();
    (b.0, m)
}

/// The archive that decoding gives when it comes through all of `p`.
fn whole(p: &Parts, version: &str, end: usize) -> DatFile {
    DatFile {
        version: version.to_string(),
        terrain_restrictions: vec![
            TerrainRestriction { terrains_count: p.terrains as i32 };
            p.restrictions as usize
        ],
        player_colours: p.colours.clone(),
        sounds: p.sounds.clone(),
        graphics: p.graphics.clone(),
        effects: p.effects.clone(),
        unit_headers: p.headers.clone(),
        civs: p.civs.clone(),
        techs: p.techs.clone(),
        tech_tree: None,
        time_slice: p.time_slice,
        debug_pos: end as u64,
    }
}

fn decode(bytes: Vec<u8>) -> DatFile {
    let mut reader = Reader::new(bytes);
    let file = DatFile::read_from_soft(&mut reader);
    assert_eq!(reader.position() as u64, file.debug_pos);
    file
}

fn deflate(data: &[u8]) -> Vec<u8> {
    let mut codec = Compress::new(Compression::default(), false);
    let mut out = Vec::with_capacity(data.len() + data.len() / 2 + 64);
    let status = codec.compress_vec(data, &mut out, FlushCompress::Finish).unwrap();
    assert_eq!(status, flate2::Status::StreamEnd);
    out
}

fn patterned(n: usize) -> Vec<u8> {
    let mut x: u32 = 12345;
    (0..n)
        .map(|i| {
            x = x.wrapping_mul(1_103_515_245).wrapping_add(12345);
            if i % 7 < 3 { (x >> 16) as u8 } else { (i % 251) as u8 }
        })
        .collect()
}

#[test]
fn test_parse_file() {
    let p = parts("VER 8.8", 2);
    let (bytes, _) = archive(&p, "VER 8.8");
    let done = decompress(&deflate(&bytes));
    let mut reader = Reader::new(done.output);
    let dat = DatFile::read_from_soft(&mut reader);
    println!("Version: {}", dat.version);
    println!("Civs: {}", dat.civs.len());
    assert_eq!(dat.version.trim(), "VER 8.8");
    assert_eq!(dat.civs.len(), 2);
    if let Some(Some(unit)) = dat.civs[0].units.first() {
        println!("First Unit: {}", unit.name);
        assert!(!unit.name.is_empty());
    }
}

#[test]
fn a_whole_archive_is_decoded_section_by_section() {
    for version in ["VER 7.6", "VER 7.7", "VER 8.4", "VER 8.8"] {
        let p = parts(version, 2);
        let (bytes, marks) = archive(&p, version);
        assert_eq!(decode(bytes.clone()), whole(&p, version, marks.end));
        let mut longer = bytes;
        longer.extend_from_slice(&[1, 2, 3]);
        assert_eq!(decode(longer), whole(&p, version, marks.end));
    }
}

#[test]
fn the_first_restriction_stands_after_the_addresses() {
    let mut b = Bytes::new();
    b.0.extend_from_slice(b"VER 8.8\0");
    b.u16(4);
    b.u16(3);
    b.skip(8 * 4);
    b.skip(20 * 3);
    let file = decode(b.0);
    assert_eq!(file.terrain_restrictions, vec![TerrainRestriction { terrains_count: 3 }]);
    assert_eq!(file.debug_pos, 8 + 4 + 8 * 4 + 20 * 3);

    let mut b = Bytes::new();
    b.0.extend_from_slice(b"VER 8.8\0");
    b.u16(4);
    b.u16(3);
    b.skip(8 * 4 - 1);
    let file = decode(b.0);
    assert!(file.terrain_restrictions.is_empty());
    assert_eq!(file.debug_pos, 8);
}

#[test]
fn many_restrictions_do_not_wrap_the_skip() {
    let mut b = Bytes::new();
    b.0.extend_from_slice(b"VER 8.8\0");
    b.u16(9000);
    b.u16(0);
    b.skip(8 * 9000);
    b.u16(0);
    let file = decode(b.0);
    assert_eq!(file.terrain_restrictions.len(), 9000);
    assert_eq!(file.debug_pos, 8 + 4 + 8 * 9000 + 2);
}

#[test]
fn a_buffer_that_ends_in_the_civilisations_keeps_what_was_decoded() {
    let version = "VER 8.8";
    let p = parts(version, 3);
    let (bytes, marks) = archive(&p, version);
    let cut = (marks.each_civ[1] + marks.each_civ[2]) / 2;
    let file = decode(bytes[..cut].to_vec());
    let mut want = whole(&p, version, marks.each_civ[1]);
    want.civs.truncate(1);
    want.techs.clear();
    want.time_slice = 0;
    assert_eq!(file, want);
    assert_eq!(file.civs.len(), 1);
    assert_eq!(file.unit_headers.len(), 2);
}

#[test]
fn a_cut_archive_gives_what_the_whole_one_gives_as_far_as_it_goes() {
    for version in ["VER 7.7", "VER 8.8"] {
        let p = parts(version, 3);
        let (bytes, m) = archive(&p, version);
        let whole = decode(bytes.clone());
        assert_eq!(whole.civs.len(), 3);
        let mut cuts = vec![m.civs, m.civs + 1, m.civs + 2, m.techs - 1, m.techs];
        for k in 0..3 {
            cuts.push(m.each_civ[k]);
            cuts.push(m.each_civ[k] + 1);
            cuts.push(m.each_civ[k] + 300);
        }
        for cut in cuts {
            let file = decode(bytes[..cut].to_vec());
            assert_eq!(file.version, whole.version);
            assert_eq!(file.terrain_restrictions, whole.terrain_restrictions);
            assert_eq!(file.player_colours, whole.player_colours);
            assert_eq!(file.sounds, whole.sounds);
            assert_eq!(file.graphics, whole.graphics);
            assert_eq!(file.effects, whole.effects);
            assert_eq!(file.unit_headers, whole.unit_headers);
            let held = m.each_civ.iter().skip(1).filter(|start| **start <= cut).count()
                + if cut >= m.techs { 1 } else { 0 };
            let held = if cut < m.civs + 2 { 0 } else { held };
            assert_eq!(file.civs.len(), held, "cut at {}", cut);
            assert_eq!(file.civs[..], whole.civs[..held], "cut at {}", cut);
            if held < 3 {
                assert!(file.techs.is_empty());
                assert_eq!(file.time_slice, 0);
                assert_eq!(file.tech_tree, None);
            }
        }
    }
}

#[test]
fn a_buffer_may_end_anywhere() {
    let version = "VER 8.4";
    let p = parts(version, 2);
    let (bytes, m) = archive(&p, version);
    let full = whole(&p, version, m.end);
    let cuts = [
        0,
        7,
        8,
        m.restrictions + 3,
        m.colours,
        m.colours + 1,
        m.colours + 2 + 36,
        m.sounds + 5,
        m.graphics + 2,
        m.terrain_block + 1000,
        m.random_maps + 7,
        m.effects + 4,
        m.headers + 5,
        m.civs + 1,
        m.each_civ[0] + 200,
        m.techs + 2,
        m.time_slice + 3,
    ];
    for cut in cuts {
        let file = decode(bytes[..cut].to_vec());
        assert!(file.debug_pos as usize <= cut, "cut at {}", cut);
        assert_eq!(file.version == version, cut >= 8, "cut at {}", cut);
        assert_eq!(file.terrain_restrictions.len() == 3, cut >= m.colours, "cut at {}", cut);
        assert_eq!(file.player_colours == full.player_colours, cut >= m.sounds, "cut at {}", cut);
        assert_eq!(file.sounds == full.sounds, cut >= m.graphics, "cut at {}", cut);
        assert_eq!(file.graphics == full.graphics, cut >= m.terrain_block, "cut at {}", cut);
        assert_eq!(file.effects == full.effects, cut >= m.headers, "cut at {}", cut);
        assert_eq!(file.unit_headers == full.unit_headers, cut >= m.civs, "cut at {}", cut);
        assert_eq!(file.civs == full.civs, cut >= m.techs, "cut at {}", cut);
        assert_eq!(file.techs == full.techs, cut >= m.time_slice, "cut at {}", cut);
        assert_eq!(file.time_slice, 0, "cut at {}", cut);
        assert_eq!(file.tech_tree, None);
    }
    let file = decode(bytes[..m.colours + 2 + 36].to_vec());
    assert_eq!(file.player_colours, full.player_colours[..1].to_vec());
    assert_eq!(file.debug_pos as usize, m.colours + 2 + 36);
    let file = decode(bytes[..m.terrain_block + 1000].to_vec());
    assert_eq!(file.debug_pos as usize, m.terrain_block);
}

#[test]
fn random_maps_that_are_announced_are_not_decoded() {
    let version = "VER 8.8";
    let mut p = parts(version, 1);
    p.random_maps = 2;
    let (bytes, marks) = archive(&p, version);
    assert_eq!(decode(bytes), whole(&p, version, marks.end));
}

#[test]
fn versions_are_compared_as_strings() {
    let version = "VER 10.0";
    let p = parts(version, 1);
    assert!(version < "VER 7.7");
    let (bytes, marks) = archive(&p, version);
    let file = decode(bytes);
    assert_eq!(file, whole(&p, version, marks.end));
    let unit = file.civs[0].units[0].as_ref().unwrap();
    assert_eq!(unit.bird.as_ref().unwrap().drop_sites.len(), 3);
    assert_eq!(unit.creatable.as_ref().unwrap().train_locations[0].hot_key_id, 16000);
    assert_eq!(unit.type_50.as_ref().unwrap().interrupt_frame, -1);
}

#[test]
fn the_version_tag_loses_the_padding_at_its_end() {
    assert_eq!(decode(b"VER 8.8\0".to_vec()).version, "VER 8.8");
    assert_eq!(decode(b"VER 8\0\0\0".to_vec()).version, "VER 8");
    assert_eq!(decode(b"ABCDEFGH".to_vec()).version, "ABCDEFGH");
    assert_eq!(decode(b"\0\0\0\0\0\0\0\0".to_vec()).version, "");
    assert_eq!(decode(b"VER 8.8".to_vec()).version, "");
    assert_eq!(decode(b"VER 8.8".to_vec()).debug_pos, 0);
    assert_eq!(decode(vec![]), DatFile::empty());
}

#[test]
fn inflating_gives_back_what_was_deflated() {
    for n in [0usize, 1, 1000, 65535, 65536, 65537, 300_000] {
        let data = patterned(n);
        let compressed = deflate(&data);
        let done = decompress(&compressed);
        assert_eq!(done.output, data, "{} bytes", n);
        assert_eq!(done.stop, Some(Stop::StreamEnd));
        assert_eq!(done.consumed, compressed.len());
    }
}

#[test]
fn what_follows_the_end_of_the_stream_is_left_alone() {
    let data = patterned(100_000);
    let mut compressed = deflate(&data);
    let end = compressed.len();
    compressed.extend_from_slice(&[0xFF; 500]);
    let done = decompress(&compressed);
    assert_eq!(done.output, data);
    assert_eq!(done.stop, Some(Stop::StreamEnd));
    assert_eq!(done.consumed, end);
    assert!(done.consumed < compressed.len());
}

#[test]
fn a_stream_that_breaks_off_gives_what_it_held() {
    let data = patterned(200_000);
    let compressed = deflate(&data);
    let done = decompress(&compressed[..compressed.len() / 2]);
    assert_eq!(done.stop, Some(Stop::InputSpent));
    assert_eq!(done.consumed, compressed.len() / 2);
    assert!(!done.output.is_empty());
    assert!(done.output.len() < data.len());
    assert_eq!(done.output[..], data[..done.output.len()]);
}

#[test]
fn a_malformed_stream_stops_the_work() {
    let done = decompress(&[0xFF; 64]);
    assert_eq!(done.stop, Some(Stop::Failed));
    assert!(done.output.is_empty());

    let data = patterned(200_000);
    let mut compressed = deflate(&data);
    let n = compressed.len();
    for b in &mut compressed[n / 2..] {
        *b = 0xFF;
    }
    let done = decompress(&compressed);
    assert!(done.stop == Some(Stop::Failed) || done.stop == Some(Stop::InputSpent));
    assert!(done.output.len() <= data.len() || done.stop == Some(Stop::InputSpent));
}

#[test]
fn no_input_gives_no_output() {
    let done = decompress(&[]);
    assert!(done.output.is_empty());
    assert_eq!(done.consumed, 0);
    assert_eq!(done.stop, Some(Stop::InputSpent));
}

#[test]
fn a_truncated_archive_is_decoded_as_far_as_it_was_inflated() {
    let version = "VER 8.8";
    let p = parts(version, 2);
    let (bytes, marks) = archive(&p, version);
    let compressed = deflate(&bytes);
    let done = decompress(&compressed[..compressed.len() * 2 / 3]);
    assert_eq!(done.stop, Some(Stop::InputSpent));
    let inflated = done.output.len();
    assert!(inflated > 8 && inflated < bytes.len());
    let file = decode(done.output);
    assert_eq!(file.version, version);
    assert!(file.debug_pos as usize <= inflated);
    assert!(file.terrain_restrictions.len() == 3 || inflated < marks.colours);
    assert_eq!(file.time_slice, 0);
}

#[test]
fn an_answer_of_the_codec_is_taken_in_as_it_came() {
    let mut state = Inflation::new();
    assert_eq!((state.output.len(), state.consumed, state.stop), (0, 0, None));
    state.absorb(10, Ok(Report::Going), 4, &[1, 2]);
    assert_eq!((state.output.clone(), state.consumed, state.stop), (vec![1, 2], 4, None));
    state.absorb(10, Ok(Report::BufError), 0, &[3]);
    assert_eq!((state.output.clone(), state.consumed, state.stop), (vec![1, 2, 3], 4, None));
    state.absorb(10, Ok(Report::Going), 0, &[]);
    assert_eq!(state.stop, Some(Stop::Stalled));
    assert_eq!(state.error(), None);

    let mut state = Inflation::new();
    state.absorb(10, Ok(Report::Going), 10, &[5]);
    assert_eq!((state.output.clone(), state.consumed), (vec![5], 10));
    assert_eq!(state.stop, Some(Stop::InputSpent));
    assert_eq!(state.error(), None);

    let mut state = Inflation::new();
    state.absorb(10, Ok(Report::Going), 2, &[8]);
    state.absorb(10, Ok(Report::StreamEnd), 1, &[9]);
    assert_eq!((state.output.clone(), state.consumed), (vec![8, 9], 3));
    assert_eq!(state.stop, Some(Stop::StreamEnd));
    assert_eq!(state.error(), None);

    let mut state = Inflation::new();
    state.absorb(10, Ok(Report::Going), 2, &[8]);
    state.absorb(10, Err(DecodeError::Codec), 5, &[7, 7]);
    assert_eq!((state.output.clone(), state.consumed), (vec![8], 2));
    assert_eq!(state.stop, Some(Stop::Failed));
    assert_eq!(state.error(), Some(DecodeError::Codec));
}

#[test]
fn a_malformed_stream_is_a_codec_error() {
    assert_eq!(decompress(&[0xFF; 64]).error(), Some(DecodeError::Codec));
    assert_eq!(decompress(&deflate(b"text")).error(), None);
}
