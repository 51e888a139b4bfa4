//! Tasks: the actions that units of a type can be given.
use crate::codec::{
    i16_at, i16_bytes, lemma_add_assoc, lemma_field_lens, lemma_i16_field, lemma_opt_u16_field, lemma_pow256_values,
    lemma_u16_field, lemma_u32_field, opt_u16_at, opt_u16_bytes, put_i16_le, put_opt_u16,
    put_u16_le, put_u32_le, read_i16_le, read_opt_u16, read_u16_le, read_u32_le, read_u8, u16_at,
    u16_bytes, u32_at, u32_bytes, ReadError,
};
use crate::dat::fields::{
    fits_i16, flag_at, flag_bytes, lemma_flag_field, lemma_u8_field, opt_sound, opt_sprite,
    opt_unit, put_flag, read_flag, sound_from_opt, sound_to_opt, sprite_from_opt, sprite_to_opt,
    unit_from_opt, unit_to_opt,
};
use crate::dat::ids::{SoundID, SpriteID, UnitTypeID};
use vstd::prelude::*;

verus! {

/// A task that units of a type can be given: what it acts on, and how.
#[derive(Debug, Default, Clone, Copy)]
pub struct Task {
    id: u16,
    is_default: bool,
    action_type: u16,
    object_class: i16,
    object_id: Option<UnitTypeID>,
    terrain_id: i16,
    attribute_types: (i16, i16, i16, i16),
    work_values: (u32, u32),
    work_range: u32,
    auto_search_targets: bool,
    search_wait_time: u32,
    enable_targeting: bool,
    combat_level: u8,
    work_flags: (u16, u16),
    owner_type: u8,
    holding_attribute: u8,
    state_building: u8,
    move_sprite: Option<SpriteID>,
    work_sprite: Option<SpriteID>,
    work_sprite2: Option<SpriteID>,
    carry_sprite: Option<SpriteID>,
    work_sound: Option<SoundID>,
    work_sound2: Option<SoundID>,
}

impl View for Task {
    type V = TaskView;

    closed spec fn view(&self) -> TaskView {
        TaskView {
            id: self.id,
            is_default: self.is_default,
            action_type: self.action_type,
            object_class: self.object_class,
            object_id: opt_unit(self.object_id),
            terrain_id: self.terrain_id,
            attribute_types_0: self.attribute_types.0,
            attribute_types_1: self.attribute_types.1,
            attribute_types_2: self.attribute_types.2,
            attribute_types_3: self.attribute_types.3,
            work_values_0: self.work_values.0,
            work_values_1: self.work_values.1,
            work_range: self.work_range,
            auto_search_targets: self.auto_search_targets,
            search_wait_time: self.search_wait_time,
            enable_targeting: self.enable_targeting,
            combat_level: self.combat_level,
            work_flags_0: self.work_flags.0,
            work_flags_1: self.work_flags.1,
            owner_type: self.owner_type,
            holding_attribute: self.holding_attribute,
            state_building: self.state_building,
            move_sprite: opt_sprite(self.move_sprite),
            work_sprite: opt_sprite(self.work_sprite),
            work_sprite2: opt_sprite(self.work_sprite2),
            carry_sprite: opt_sprite(self.carry_sprite),
            work_sound: opt_sound(self.work_sound),
            work_sound2: opt_sound(self.work_sound2),
        }
    }
}

/// The fields of a task as values.
pub ghost struct TaskView {
    pub id: u16,
    pub is_default: bool,
    pub action_type: u16,
    pub object_class: i16,
    pub object_id: Option<u16>,
    pub terrain_id: i16,
    pub attribute_types_0: i16,
    pub attribute_types_1: i16,
    pub attribute_types_2: i16,
    pub attribute_types_3: i16,
    pub work_values_0: u32,
    pub work_values_1: u32,
    pub work_range: u32,
    pub auto_search_targets: bool,
    pub search_wait_time: u32,
    pub enable_targeting: bool,
    pub combat_level: u8,
    pub work_flags_0: u16,
    pub work_flags_1: u16,
    pub owner_type: u8,
    pub holding_attribute: u8,
    pub state_building: u8,
    pub move_sprite: Option<u16>,
    pub work_sprite: Option<u16>,
    pub work_sprite2: Option<u16>,
    pub carry_sprite: Option<u16>,
    pub work_sound: Option<u16>,
    pub work_sound2: Option<u16>,
}

/// The task stored at `pos`.
pub open spec fn task_at(data: Seq<u8>, pos: int) -> TaskView {
    TaskView {
        id: u16_at(data, pos),
        is_default: flag_at(data, pos + 2),
        action_type: u16_at(data, pos + 3),
        object_class: i16_at(data, pos + 5),
        object_id: opt_u16_at(data, pos + 7),
        terrain_id: i16_at(data, pos + 9),
        attribute_types_0: i16_at(data, pos + 11),
        attribute_types_1: i16_at(data, pos + 13),
        attribute_types_2: i16_at(data, pos + 15),
        attribute_types_3: i16_at(data, pos + 17),
        work_values_0: u32_at(data, pos + 19),
        work_values_1: u32_at(data, pos + 23),
        work_range: u32_at(data, pos + 27),
        auto_search_targets: flag_at(data, pos + 31),
        search_wait_time: u32_at(data, pos + 32),
        enable_targeting: flag_at(data, pos + 36),
        combat_level: data[pos + 37],
        work_flags_0: u16_at(data, pos + 38),
        work_flags_1: u16_at(data, pos + 40),
        owner_type: data[pos + 42],
        holding_attribute: data[pos + 43],
        state_building: data[pos + 44],
        move_sprite: opt_u16_at(data, pos + 45),
        work_sprite: opt_u16_at(data, pos + 47),
        work_sprite2: opt_u16_at(data, pos + 49),
        carry_sprite: opt_u16_at(data, pos + 51),
        work_sound: opt_u16_at(data, pos + 53),
        work_sound2: opt_u16_at(data, pos + 55),
    }
}

/// Part 1 of the bytes of a task.
pub open spec fn task_bytes_1(v: TaskView) -> Seq<u8> {
    u16_bytes(v.id)
        + flag_bytes(v.is_default)
        + u16_bytes(v.action_type)
        + i16_bytes(v.object_class)
        + opt_u16_bytes(v.object_id)
        + i16_bytes(v.terrain_id)
        + i16_bytes(v.attribute_types_0)
}

/// Part 2 of the bytes of a task.
pub open spec fn task_bytes_2(v: TaskView) -> Seq<u8> {
    i16_bytes(v.attribute_types_1)
        + i16_bytes(v.attribute_types_2)
        + i16_bytes(v.attribute_types_3)
        + u32_bytes(v.work_values_0)
        + u32_bytes(v.work_values_1)
        + u32_bytes(v.work_range)
        + flag_bytes(v.auto_search_targets)
}

/// Part 3 of the bytes of a task.
pub open spec fn task_bytes_3(v: TaskView) -> Seq<u8> {
    u32_bytes(v.search_wait_time)
        + flag_bytes(v.enable_targeting)
        + seq![v.combat_level]
        + u16_bytes(v.work_flags_0)
        + u16_bytes(v.work_flags_1)
        + seq![v.owner_type]
        + seq![v.holding_attribute]
}

/// Part 4 of the bytes of a task.
pub open spec fn task_bytes_4(v: TaskView) -> Seq<u8> {
    seq![v.state_building]
        + opt_u16_bytes(v.move_sprite)
        + opt_u16_bytes(v.work_sprite)
        + opt_u16_bytes(v.work_sprite2)
        + opt_u16_bytes(v.carry_sprite)
        + opt_u16_bytes(v.work_sound)
        + opt_u16_bytes(v.work_sound2)
}

/// The 57 bytes a task is stored as.
pub open spec fn task_bytes(v: TaskView) -> Seq<u8> {
    task_bytes_1(v)
        + task_bytes_2(v)
        + task_bytes_3(v)
        + task_bytes_4(v)
}

/// The values that can be written: IDs that the game writes as signed numbers fit.
pub open spec fn task_writable(v: TaskView) -> bool {
    fits_i16(v.object_id)
    && fits_i16(v.move_sprite)
    && fits_i16(v.work_sprite)
    && fits_i16(v.work_sprite2)
    && fits_i16(v.carry_sprite)
    && fits_i16(v.work_sound)
    && fits_i16(v.work_sound2)
}

/// The values that read back as written: IDs fit, and none is `0xFFFF`.
pub open spec fn task_exact(v: TaskView) -> bool {
    fits_i16(v.object_id)
    && fits_i16(v.move_sprite)
    && fits_i16(v.work_sprite)
    && fits_i16(v.work_sprite2)
    && fits_i16(v.carry_sprite)
    && fits_i16(v.work_sound)
    && fits_i16(v.work_sound2)
}

impl Task {
    /// Read a task at `pos`; returns it and the position after it.
    pub fn read_from(input: &[u8], pos: usize) -> (r: Result<(Self, usize), ReadError>)
        ensures
            r is Ok <==> pos + 57 <= input.len(),
            r matches Ok((x, q)) ==> x@ == task_at(input@, pos as int) && q == pos + 57,
            r matches Err(e) ==> e == ReadError::UnexpectedEof,
    {
        let p = pos;
        let (id, p) = read_u16_le(input, p)?;
        let (is_default, p) = read_flag(input, p)?;
        let (action_type, p) = read_u16_le(input, p)?;
        let (object_class, p) = read_i16_le(input, p)?;
        let (object_id, p) = read_opt_u16(input, p)?;
        let object_id = unit_from_opt(object_id);
        let (terrain_id, p) = read_i16_le(input, p)?;
        let (attribute_types_0, p) = read_i16_le(input, p)?;
        let (attribute_types_1, p) = read_i16_le(input, p)?;
        let (attribute_types_2, p) = read_i16_le(input, p)?;
        let (attribute_types_3, p) = read_i16_le(input, p)?;
        let (work_values_0, p) = read_u32_le(input, p)?;
        let (work_values_1, p) = read_u32_le(input, p)?;
        let (work_range, p) = read_u32_le(input, p)?;
        let (auto_search_targets, p) = read_flag(input, p)?;
        let (search_wait_time, p) = read_u32_le(input, p)?;
        let (enable_targeting, p) = read_flag(input, p)?;
        let (combat_level, p) = read_u8(input, p)?;
        let (work_flags_0, p) = read_u16_le(input, p)?;
        let (work_flags_1, p) = read_u16_le(input, p)?;
        let (owner_type, p) = read_u8(input, p)?;
        let (holding_attribute, p) = read_u8(input, p)?;
        let (state_building, p) = read_u8(input, p)?;
        let (move_sprite, p) = read_opt_u16(input, p)?;
        let move_sprite = sprite_from_opt(move_sprite);
        let (work_sprite, p) = read_opt_u16(input, p)?;
        let work_sprite = sprite_from_opt(work_sprite);
        let (work_sprite2, p) = read_opt_u16(input, p)?;
        let work_sprite2 = sprite_from_opt(work_sprite2);
        let (carry_sprite, p) = read_opt_u16(input, p)?;
        let carry_sprite = sprite_from_opt(carry_sprite);
        let (work_sound, p) = read_opt_u16(input, p)?;
        let work_sound = sound_from_opt(work_sound);
        let (work_sound2, p) = read_opt_u16(input, p)?;
        let work_sound2 = sound_from_opt(work_sound2);
        Ok((Task { id, is_default, action_type, object_class, object_id, terrain_id, attribute_types: (attribute_types_0, attribute_types_1, attribute_types_2, attribute_types_3), work_values: (work_values_0, work_values_1), work_range, auto_search_targets, search_wait_time, enable_targeting, combat_level, work_flags: (work_flags_0, work_flags_1), owner_type, holding_attribute, state_building, move_sprite, work_sprite, work_sprite2, carry_sprite, work_sound, work_sound2 }, p))
    }

    fn write_part_1(&self, output: &mut Vec<u8>)
        requires
            task_writable(self@),
        ensures
            final(output)@ == old(output)@ + task_bytes_1(self@),
    {
        let ghost s0 = output@;
        put_u16_le(output, self.id);
        let ghost mut acc = u16_bytes(self@.id);
        assert(output@ == s0 + acc);
        put_flag(output, self.is_default);
        proof {
            lemma_add_assoc(s0, acc, flag_bytes(self@.is_default));
            acc = acc + flag_bytes(self@.is_default);
        }
        put_u16_le(output, self.action_type);
        proof {
            lemma_add_assoc(s0, acc, u16_bytes(self@.action_type));
            acc = acc + u16_bytes(self@.action_type);
        }
        put_i16_le(output, self.object_class);
        proof {
            lemma_add_assoc(s0, acc, i16_bytes(self@.object_class));
            acc = acc + i16_bytes(self@.object_class);
        }
        put_opt_u16(output, unit_to_opt(self.object_id));
        proof {
            lemma_add_assoc(s0, acc, opt_u16_bytes(self@.object_id));
            acc = acc + opt_u16_bytes(self@.object_id);
        }
        put_i16_le(output, self.terrain_id);
        proof {
            lemma_add_assoc(s0, acc, i16_bytes(self@.terrain_id));
            acc = acc + i16_bytes(self@.terrain_id);
        }
        put_i16_le(output, self.attribute_types.0);
        proof {
            lemma_add_assoc(s0, acc, i16_bytes(self@.attribute_types_0));
            acc = acc + i16_bytes(self@.attribute_types_0);
        }
        assert(acc == task_bytes_1(self@));
    }

    fn write_part_2(&self, output: &mut Vec<u8>)
        requires
            task_writable(self@),
        ensures
            final(output)@ == old(output)@ + task_bytes_2(self@),
    {
        let ghost s0 = output@;
        put_i16_le(output, self.attribute_types.1);
        let ghost mut acc = i16_bytes(self@.attribute_types_1);
        assert(output@ == s0 + acc);
        put_i16_le(output, self.attribute_types.2);
        proof {
            lemma_add_assoc(s0, acc, i16_bytes(self@.attribute_types_2));
            acc = acc + i16_bytes(self@.attribute_types_2);
        }
        put_i16_le(output, self.attribute_types.3);
        proof {
            lemma_add_assoc(s0, acc, i16_bytes(self@.attribute_types_3));
            acc = acc + i16_bytes(self@.attribute_types_3);
        }
        put_u32_le(output, self.work_values.0);
        proof {
            lemma_add_assoc(s0, acc, u32_bytes(self@.work_values_0));
            acc = acc + u32_bytes(self@.work_values_0);
        }
        put_u32_le(output, self.work_values.1);
        proof {
            lemma_add_assoc(s0, acc, u32_bytes(self@.work_values_1));
            acc = acc + u32_bytes(self@.work_values_1);
        }
        put_u32_le(output, self.work_range);
        proof {
            lemma_add_assoc(s0, acc, u32_bytes(self@.work_range));
            acc = acc + u32_bytes(self@.work_range);
        }
        put_flag(output, self.auto_search_targets);
        proof {
            lemma_add_assoc(s0, acc, flag_bytes(self@.auto_search_targets));
            acc = acc + flag_bytes(self@.auto_search_targets);
        }
        assert(acc == task_bytes_2(self@));
    }

    fn write_part_3(&self, output: &mut Vec<u8>)
        requires
            task_writable(self@),
        ensures
            final(output)@ == old(output)@ + task_bytes_3(self@),
    {
        let ghost s0 = output@;
        put_u32_le(output, self.search_wait_time);
        let ghost mut acc = u32_bytes(self@.search_wait_time);
        assert(output@ == s0 + acc);
        put_flag(output, self.enable_targeting);
        proof {
            lemma_add_assoc(s0, acc, flag_bytes(self@.enable_targeting));
            acc = acc + flag_bytes(self@.enable_targeting);
        }
        output.push(self.combat_level);
        proof {
            lemma_add_assoc(s0, acc, seq![self@.combat_level]);
            acc = acc + seq![self@.combat_level];
        }
        put_u16_le(output, self.work_flags.0);
        proof {
            lemma_add_assoc(s0, acc, u16_bytes(self@.work_flags_0));
            acc = acc + u16_bytes(self@.work_flags_0);
        }
        put_u16_le(output, self.work_flags.1);
        proof {
            lemma_add_assoc(s0, acc, u16_bytes(self@.work_flags_1));
            acc = acc + u16_bytes(self@.work_flags_1);
        }
        output.push(self.owner_type);
        proof {
            lemma_add_assoc(s0, acc, seq![self@.owner_type]);
            acc = acc + seq![self@.owner_type];
        }
        output.push(self.holding_attribute);
        proof {
            lemma_add_assoc(s0, acc, seq![self@.holding_attribute]);
            acc = acc + seq![self@.holding_attribute];
        }
        assert(acc == task_bytes_3(self@));
    }

    fn write_part_4(&self, output: &mut Vec<u8>)
        requires
            task_writable(self@),
        ensures
            final(output)@ == old(output)@ + task_bytes_4(self@),
    {
        let ghost s0 = output@;
        output.push(self.state_building);
        let ghost mut acc = seq![self@.state_building];
        assert(output@ == s0 + acc);
        put_opt_u16(output, sprite_to_opt(self.move_sprite));
        proof {
            lemma_add_assoc(s0, acc, opt_u16_bytes(self@.move_sprite));
            acc = acc + opt_u16_bytes(self@.move_sprite);
        }
        put_opt_u16(output, sprite_to_opt(self.work_sprite));
        proof {
            lemma_add_assoc(s0, acc, opt_u16_bytes(self@.work_sprite));
            acc = acc + opt_u16_bytes(self@.work_sprite);
        }
        put_opt_u16(output, sprite_to_opt(self.work_sprite2));
        proof {
            lemma_add_assoc(s0, acc, opt_u16_bytes(self@.work_sprite2));
            acc = acc + opt_u16_bytes(self@.work_sprite2);
        }
        put_opt_u16(output, sprite_to_opt(self.carry_sprite));
        proof {
            lemma_add_assoc(s0, acc, opt_u16_bytes(self@.carry_sprite));
            acc = acc + opt_u16_bytes(self@.carry_sprite);
        }
        put_opt_u16(output, sound_to_opt(self.work_sound));
        proof {
            lemma_add_assoc(s0, acc, opt_u16_bytes(self@.work_sound));
            acc = acc + opt_u16_bytes(self@.work_sound);
        }
        put_opt_u16(output, sound_to_opt(self.work_sound2));
        proof {
            lemma_add_assoc(s0, acc, opt_u16_bytes(self@.work_sound2));
            acc = acc + opt_u16_bytes(self@.work_sound2);
        }
        assert(acc == task_bytes_4(self@));
    }

    /// Append a task record to `output`; each ID goes into a signed 16-bit field.
    pub fn write_to(&self, output: &mut Vec<u8>)
        requires
            task_writable(self@),
        ensures
            final(output)@ == old(output)@ + task_bytes(self@),
    {
        self.write_part_1(output);
        self.write_part_2(output);
        self.write_part_3(output);
        self.write_part_4(output);
        assert(output@ =~= old(output)@ + task_bytes(self@));
    }
}

/// A task that is written reads back unchanged, wherever it stands, when its IDs fit.
#[verifier::rlimit(100)]
pub proof fn law_task_read_of_write(prefix: Seq<u8>, v: TaskView, suffix: Seq<u8>)
    requires
        task_exact(v),
    ensures
        task_bytes(v).len() == 57,
        task_at(prefix + task_bytes(v) + suffix, prefix.len() as int) == v,
{
    lemma_field_lens();
    lemma_pow256_values();
    assert(flag_bytes(v.is_default).len() == 1);
    assert(opt_u16_bytes(v.object_id).len() == 2);
    assert(flag_bytes(v.auto_search_targets).len() == 1);
    assert(flag_bytes(v.enable_targeting).len() == 1);
    assert(opt_u16_bytes(v.move_sprite).len() == 2);
    assert(opt_u16_bytes(v.work_sprite).len() == 2);
    assert(opt_u16_bytes(v.work_sprite2).len() == 2);
    assert(opt_u16_bytes(v.carry_sprite).len() == 2);
    assert(opt_u16_bytes(v.work_sound).len() == 2);
    assert(opt_u16_bytes(v.work_sound2).len() == 2);
    let data = prefix + task_bytes(v) + suffix;
    let p = prefix.len() as int;
    assert((prefix) + task_bytes_1(v) + (task_bytes_2(v) + task_bytes_3(v) + task_bytes_4(v) + suffix) =~= data);
    lemma_task_part_1(prefix, v, task_bytes_2(v) + task_bytes_3(v) + task_bytes_4(v) + suffix);
    assert((prefix + task_bytes_1(v)) + task_bytes_2(v) + (task_bytes_3(v) + task_bytes_4(v) + suffix) =~= data);
    lemma_task_part_2(prefix + task_bytes_1(v), v, task_bytes_3(v) + task_bytes_4(v) + suffix);
    assert((prefix + task_bytes_1(v) + task_bytes_2(v)) + task_bytes_3(v) + (task_bytes_4(v) + suffix) =~= data);
    lemma_task_part_3(prefix + task_bytes_1(v) + task_bytes_2(v), v, task_bytes_4(v) + suffix);
    assert((prefix + task_bytes_1(v) + task_bytes_2(v) + task_bytes_3(v)) + task_bytes_4(v) + (suffix) =~= data);
    lemma_task_part_4(prefix + task_bytes_1(v) + task_bytes_2(v) + task_bytes_3(v), v, suffix);
}

/// The fields of part 1 of the bytes of a TaskView stand at their offsets.
pub open spec fn task_part_1_holds(data: Seq<u8>, p: int, v: TaskView) -> bool {
    &&& u16_at(data, p) == v.id
    &&& flag_at(data, p + 2) == v.is_default
    &&& u16_at(data, p + 3) == v.action_type
    &&& i16_at(data, p + 5) == v.object_class
    &&& opt_u16_at(data, p + 7) == v.object_id
    &&& i16_at(data, p + 9) == v.terrain_id
    &&& i16_at(data, p + 11) == v.attribute_types_0
}

proof fn lemma_task_part_1(prefix: Seq<u8>, v: TaskView, suffix: Seq<u8>)
    requires
        task_exact(v),
    ensures
        task_bytes_1(v).len() == 13,
        task_part_1_holds(prefix + task_bytes_1(v) + suffix, prefix.len() as int, v),
{
    lemma_field_lens();
    lemma_pow256_values();
    assert(flag_bytes(v.is_default).len() == 1);
    assert(opt_u16_bytes(v.object_id).len() == 2);
    let data = prefix + task_bytes_1(v) + suffix;
    let p = prefix.len() as int;
    assert(data.subrange(p, p + 2) =~= u16_bytes(v.id));
    lemma_u16_field(data, p, v.id);
    assert(data.subrange(p + 2, p + 3) =~= flag_bytes(v.is_default));
    lemma_flag_field(data, p + 2, v.is_default);
    assert(data.subrange(p + 3, p + 5) =~= u16_bytes(v.action_type));
    lemma_u16_field(data, p + 3, v.action_type);
    assert(data.subrange(p + 5, p + 7) =~= i16_bytes(v.object_class));
    lemma_i16_field(data, p + 5, v.object_class);
    assert(data.subrange(p + 7, p + 9) =~= opt_u16_bytes(v.object_id));
    lemma_opt_u16_field(data, p + 7, v.object_id);
    assert(data.subrange(p + 9, p + 11) =~= i16_bytes(v.terrain_id));
    lemma_i16_field(data, p + 9, v.terrain_id);
    assert(data.subrange(p + 11, p + 13) =~= i16_bytes(v.attribute_types_0));
    lemma_i16_field(data, p + 11, v.attribute_types_0);
}

/// The fields of part 2 of the bytes of a TaskView stand at their offsets.
pub open spec fn task_part_2_holds(data: Seq<u8>, p: int, v: TaskView) -> bool {
    &&& i16_at(data, p) == v.attribute_types_1
    &&& i16_at(data, p + 2) == v.attribute_types_2
    &&& i16_at(data, p + 4) == v.attribute_types_3
    &&& u32_at(data, p + 6) == v.work_values_0
    &&& u32_at(data, p + 10) == v.work_values_1
    &&& u32_at(data, p + 14) == v.work_range
    &&& flag_at(data, p + 18) == v.auto_search_targets
}

proof fn lemma_task_part_2(prefix: Seq<u8>, v: TaskView, suffix: Seq<u8>)
    requires
        task_exact(v),
    ensures
        task_bytes_2(v).len() == 19,
        task_part_2_holds(prefix + task_bytes_2(v) + suffix, prefix.len() as int, v),
{
    lemma_field_lens();
    lemma_pow256_values();
    assert(flag_bytes(v.auto_search_targets).len() == 1);
    let data = prefix + task_bytes_2(v) + suffix;
    let p = prefix.len() as int;
    assert(data.subrange(p, p + 2) =~= i16_bytes(v.attribute_types_1));
    lemma_i16_field(data, p, v.attribute_types_1);
    assert(data.subrange(p + 2, p + 4) =~= i16_bytes(v.attribute_types_2));
    lemma_i16_field(data, p + 2, v.attribute_types_2);
    assert(data.subrange(p + 4, p + 6) =~= i16_bytes(v.attribute_types_3));
    lemma_i16_field(data, p + 4, v.attribute_types_3);
    assert(data.subrange(p + 6, p + 10) =~= u32_bytes(v.work_values_0));
    lemma_u32_field(data, p + 6, v.work_values_0);
    assert(data.subrange(p + 10, p + 14) =~= u32_bytes(v.work_values_1));
    lemma_u32_field(data, p + 10, v.work_values_1);
    assert(data.subrange(p + 14, p + 18) =~= u32_bytes(v.work_range));
    lemma_u32_field(data, p + 14, v.work_range);
    assert(data.subrange(p + 18, p + 19) =~= flag_bytes(v.auto_search_targets));
    lemma_flag_field(data, p + 18, v.auto_search_targets);
}

/// The fields of part 3 of the bytes of a TaskView stand at their offsets.
pub open spec fn task_part_3_holds(data: Seq<u8>, p: int, v: TaskView) -> bool {
    &&& u32_at(data, p) == v.search_wait_time
    &&& flag_at(data, p + 4) == v.enable_targeting
    &&& data[p + 5] == v.combat_level
    &&& u16_at(data, p + 6) == v.work_flags_0
    &&& u16_at(data, p + 8) == v.work_flags_1
    &&& data[p + 10] == v.owner_type
    &&& data[p + 11] == v.holding_attribute
}

proof fn lemma_task_part_3(prefix: Seq<u8>, v: TaskView, suffix: Seq<u8>)
    requires
        task_exact(v),
    ensures
        task_bytes_3(v).len() == 12,
        task_part_3_holds(prefix + task_bytes_3(v) + suffix, prefix.len() as int, v),
{
    lemma_field_lens();
    lemma_pow256_values();
    assert(flag_bytes(v.enable_targeting).len() == 1);
    let data = prefix + task_bytes_3(v) + suffix;
    let p = prefix.len() as int;
    assert(data.subrange(p, p + 4) =~= u32_bytes(v.search_wait_time));
    lemma_u32_field(data, p, v.search_wait_time);
    assert(data.subrange(p + 4, p + 5) =~= flag_bytes(v.enable_targeting));
    lemma_flag_field(data, p + 4, v.enable_targeting);
    assert(data.subrange(p + 5, p + 6) =~= seq![v.combat_level]);
    lemma_u8_field(data, p + 5, v.combat_level);
    assert(data.subrange(p + 6, p + 8) =~= u16_bytes(v.work_flags_0));
    lemma_u16_field(data, p + 6, v.work_flags_0);
    assert(data.subrange(p + 8, p + 10) =~= u16_bytes(v.work_flags_1));
    lemma_u16_field(data, p + 8, v.work_flags_1);
    assert(data.subrange(p + 10, p + 11) =~= seq![v.owner_type]);
    lemma_u8_field(data, p + 10, v.owner_type);
    assert(data.subrange(p + 11, p + 12) =~= seq![v.holding_attribute]);
    lemma_u8_field(data, p + 11, v.holding_attribute);
}

/// The fields of part 4 of the bytes of a TaskView stand at their offsets.
pub open spec fn task_part_4_holds(data: Seq<u8>, p: int, v: TaskView) -> bool {
    &&& data[p] == v.state_building
    &&& opt_u16_at(data, p + 1) == v.move_sprite
    &&& opt_u16_at(data, p + 3) == v.work_sprite
    &&& opt_u16_at(data, p + 5) == v.work_sprite2
    &&& opt_u16_at(data, p + 7) == v.carry_sprite
    &&& opt_u16_at(data, p + 9) == v.work_sound
    &&& opt_u16_at(data, p + 11) == v.work_sound2
}

proof fn lemma_task_part_4(prefix: Seq<u8>, v: TaskView, suffix: Seq<u8>)
    requires
        task_exact(v),
    ensures
        task_bytes_4(v).len() == 13,
        task_part_4_holds(prefix + task_bytes_4(v) + suffix, prefix.len() as int, v),
{
    lemma_field_lens();
    lemma_pow256_values();
    assert(opt_u16_bytes(v.move_sprite).len() == 2);
    assert(opt_u16_bytes(v.work_sprite).len() == 2);
    assert(opt_u16_bytes(v.work_sprite2).len() == 2);
    assert(opt_u16_bytes(v.carry_sprite).len() == 2);
    assert(opt_u16_bytes(v.work_sound).len() == 2);
    assert(opt_u16_bytes(v.work_sound2).len() == 2);
    let data = prefix + task_bytes_4(v) + suffix;
    let p = prefix.len() as int;
    assert(data.subrange(p, p + 1) =~= seq![v.state_building]);
    lemma_u8_field(data, p, v.state_building);
    assert(data.subrange(p + 1, p + 3) =~= opt_u16_bytes(v.move_sprite));
    lemma_opt_u16_field(data, p + 1, v.move_sprite);
    assert(data.subrange(p + 3, p + 5) =~= opt_u16_bytes(v.work_sprite));
    lemma_opt_u16_field(data, p + 3, v.work_sprite);
    assert(data.subrange(p + 5, p + 7) =~= opt_u16_bytes(v.work_sprite2));
    lemma_opt_u16_field(data, p + 5, v.work_sprite2);
    assert(data.subrange(p + 7, p + 9) =~= opt_u16_bytes(v.carry_sprite));
    lemma_opt_u16_field(data, p + 7, v.carry_sprite);
    assert(data.subrange(p + 9, p + 11) =~= opt_u16_bytes(v.work_sound));
    lemma_opt_u16_field(data, p + 9, v.work_sound);
    assert(data.subrange(p + 11, p + 13) =~= opt_u16_bytes(v.work_sound2));
    lemma_opt_u16_field(data, p + 11, v.work_sound2);
}


/// The size of an entry of a task list: the task type, then the task.
pub open spec fn task_entry_len() -> int {
    59
}

/// The task list stored at `pos`: a count, then for each task its type and the task; and
/// the position after it. `None` if the input ends first.
pub open spec fn task_list_at(data: Seq<u8>, pos: int) -> Option<(Seq<TaskView>, int)> {
    if pos + 2 > data.len() {
        None
    } else {
        let n = u16_at(data, pos) as int;
        if pos + 2 + 59 * n > data.len() {
            None
        } else {
            Some((Seq::new(n as nat, |i: int| task_at(data, pos + 2 + 59 * i + 2)), pos + 2 + 59 * n))
        }
    }
}

/// Every task of the list at `pos` whose type field is there has the type 1 (reading
/// another type panics).
pub open spec fn task_list_readable(data: Seq<u8>, pos: int) -> bool {
    pos + 2 <= data.len() ==> forall|i: int|
        0 <= i < u16_at(data, pos) && pos + 2 + 59 * i + 2 <= data.len() ==> #[trigger] u16_at(
            data,
            pos + 2 + 59 * i,
        ) == 1
}

/// The bytes of a sequence of tasks, one after the other.
pub open spec fn tasks_bytes(s: Seq<TaskView>) -> Seq<u8>
    decreases s.len(),
{
    if s.len() == 0 {
        Seq::empty()
    } else {
        tasks_bytes(s.drop_last()) + task_bytes(s.last())
    }
}

/// The tasks of a unit type.
#[derive(Debug, Default, Clone)]
pub struct TaskList(Vec<Task>);

impl View for TaskList {
    type V = Seq<TaskView>;

    closed spec fn view(&self) -> Seq<TaskView> {
        self.0@.map_values(|t: Task| t@)
    }
}

impl TaskList {
    /// The tasks, in order.
    pub fn as_slice(&self) -> (s: &[Task])
        ensures
            s@.map_values(|t: Task| t@) == self@,
    {
        self.0.as_slice()
    }

    /// The number of tasks.
    pub fn len(&self) -> (n: usize)
        ensures
            n == self@.len(),
    {
        self.0.len()
    }

    /// Read a task list at `pos`: the number of tasks, then each task after its type.
    pub fn read_from(input: &[u8], pos: usize) -> (r: Result<(Self, usize), ReadError>)
        requires
            task_list_readable(input@, pos as int),
        ensures
            match task_list_at(input@, pos as int) {
                Some((s, q)) => r matches Ok((l, p)) && l@ == s && p == q,
                None => r == Err::<(Self, usize), ReadError>(ReadError::UnexpectedEof),
            },
    {
        let (num_tasks, p0) = read_u16_le(input, pos)?;
        let mut tasks: Vec<Task> = Vec::new();
        let mut p = p0;
        let mut i: u16 = 0;
        while i < num_tasks
            invariant
                p0 == pos + 2,
                num_tasks == u16_at(input@, pos as int),
                i <= num_tasks,
                p == p0 + 59 * i,
                p <= input.len(),
                task_list_readable(input@, pos as int),
                tasks@.len() == i,
                forall|j: int| 0 <= j < i ==> #[trigger] tasks@[j]@ == task_at(input@, p0 + 59 * j + 2),
            decreases num_tasks - i,
        {
            let (task_type, q) = match read_u16_le(input, p) {
                Ok(x) => x,
                Err(e) => {
                    return Err(e);
                },
            };
            assert(u16_at(input@, pos + 2 + 59 * (i as int)) == task_type);
            assert(task_type == 1);
            let (task, q) = match Task::read_from(input, q) {
                Ok(x) => x,
                Err(e) => {
                    return Err(e);
                },
            };
            tasks.push(task);
            p = q;
            i = i + 1;
        }
        let l = TaskList(tasks);
        assert(l@ =~= Seq::new(num_tasks as nat, |j: int| task_at(input@, pos + 2 + 59 * j + 2)));
        Ok((l, p))
    }

    /// Append the number of tasks and the tasks; the task types are not written.
    pub fn write_to(&self, output: &mut Vec<u8>)
        requires
            self@.len() <= u16::MAX,
            forall|i: int| 0 <= i < self@.len() ==> task_writable(#[trigger] self@[i]),
        ensures
            final(output)@ == old(output)@ + u16_bytes(self@.len() as u16) + tasks_bytes(self@),
    {
        let n = self.0.len();
        put_u16_le(output, n as u16);
        let ghost start = output@;
        let mut i: usize = 0;
        while i < n
            invariant
                n == self.0.len(),
                n == self@.len(),
                i <= n,
                forall|j: int| 0 <= j < self@.len() ==> task_writable(#[trigger] self@[j]),
                output@ == start + tasks_bytes(self@.take(i as int)),
            decreases n - i,
        {
            assert(self@[i as int] == self.0@[i as int]@);
            self.0[i].write_to(output);
            assert(self@.take(i + 1).drop_last() =~= self@.take(i as int));
            i = i + 1;
        }
        assert(self@.take(n as int) =~= self@);
    }
}

} // verus!
