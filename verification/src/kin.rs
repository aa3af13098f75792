//! The kinematic models: which one the arm carries, where it is loaded from,
//! and the tool offset all of its users share.
use crate::paths::{beside, beside_of};
use crate::text::{chars_of, has_prefix};
use vstd::prelude::*;

verus! {

/// The tool whose model the arm carries.
#[derive(Clone, Copy, Debug, PartialEq, Eq, Structural)]
pub enum GripperVariant {
    /// None: the bare flange.
    Flange,
    /// The MSG gripper.
    Msg,
    /// The SSG48 gripper.
    Ssg48,
}

/// The lower-case form of an ASCII letter; any other character is its own.
pub open spec fn lower(c: char) -> char {
    if 'A' <= c <= 'Z' {
        (c as u32 + 32) as char
    } else {
        c
    }
}

/// Whether two characters are the same but for ASCII case.
fn same_letter(a: char, b: char) -> (r: bool)
    ensures
        r == (lower(a) == lower(b)),
{
    let a: char = if 'A' <= a && a <= 'Z' {
        ((a as u8) + 32) as char
    } else {
        a
    };
    let b: char = if 'A' <= b && b <= 'Z' {
        ((b as u8) + 32) as char
    } else {
        b
    };
    a == b
}

/// Whether two texts are the same but for ASCII case.
pub open spec fn same_but_case(a: Seq<char>, b: Seq<char>) -> bool {
    a.len() == b.len() && forall|i: int| 0 <= i < a.len() ==> lower(#[trigger] a[i]) == lower(b[i])
}

/// Whether two texts are the same but for ASCII case.
fn eq_but_case(a: &str, b: &str) -> (r: bool)
    ensures
        r == same_but_case(a@, b@),
{
    let left = chars_of(a);
    let right = chars_of(b);
    if left.len() != right.len() {
        return false;
    }
    let mut i: usize = 0;
    while i < left.len()
        invariant
            i <= left@.len() == right@.len(),
            left@ == a@,
            right@ == b@,
            forall|k: int| 0 <= k < i ==> lower(#[trigger] a@[k]) == lower(b@[k]),
        decreases left@.len() - i,
    {
        if !same_letter(left[i], right[i]) {
            assert(lower(a@[i as int]) != lower(b@[i as int]));
            return false;
        }
        i += 1;
    }
    true
}

/// The model for a configured tool; nothing where none is known.
pub open spec fn known_variant(name: Seq<char>) -> Option<GripperVariant> {
    if same_but_case(name, "flange"@) {
        Some(GripperVariant::Flange)
    } else if "MSG"@.is_prefix_of(name) {
        Some(GripperVariant::Msg)
    } else if "SSG48"@.is_prefix_of(name) {
        Some(GripperVariant::Ssg48)
    } else {
        None
    }
}

/// A tool's model, and whether the tool is known.
#[derive(Clone, Copy, Debug, PartialEq, Eq, Structural)]
pub struct VariantChoice {
    /// The model.
    pub variant: GripperVariant,
    /// Whether the tool is known; one that is not is worth a warning.
    pub known: bool,
}

/// The model for a configured tool; the bare flange where none is known.
pub fn variant_for(gripper_name: &str) -> (r: VariantChoice)
    ensures
        r.known == known_variant(gripper_name@) is Some,
        r.variant == (match known_variant(gripper_name@) {
            Some(v) => v,
            None => GripperVariant::Flange,
        }),
{
    if eq_but_case(gripper_name, "flange") {
        VariantChoice { variant: GripperVariant::Flange, known: true }
    } else if has_prefix(gripper_name, "MSG") {
        VariantChoice { variant: GripperVariant::Msg, known: true }
    } else if has_prefix(gripper_name, "SSG48") {
        VariantChoice { variant: GripperVariant::Ssg48, known: true }
    } else {
        VariantChoice { variant: GripperVariant::Flange, known: false }
    }
}

/// A directory that may hold the models.
#[derive(Debug)]
pub struct Place {
    /// Its path.
    pub path: String,
    /// Whether it is there.
    pub exists: bool,
}

/// What is told of an assets directory that is not there.
pub open spec fn missing_assets(explicit: Option<Place>, config_path: Seq<char>) -> Seq<char> {
    match explicit {
        Some(p) => "assets directory not found: "@ + p.path@,
        None => "no assets/par6_description tree next to "@ + config_path
            + "; set --assets or PAR6_ASSETS"@,
    }
}

/// Where the models are below the directory that holds the configuration's.
pub open spec fn assets_below() -> Seq<char> {
    "assets/par6_description"@
}

/// Where the models are unless they were set: next to the configuration's
/// directory. A file that is in no such directory has no models beside it.
pub fn assets_beside(config_path: &str) -> (r: Option<String>)
    ensures
        match r {
            Some(s) => beside_of(config_path@, assets_below()) == Some(s@),
            None => beside_of(config_path@, assets_below()) is None,
        },
{
    beside(config_path, "assets/par6_description")
}

/// Where the models are: the place that was set, or else the tree next to the
/// configuration's directory, where `beside_exists` says whether it is there. A
/// place that was set and is not there is not looked for elsewhere.
pub fn resolve_assets_dir(explicit: Option<Place>, config_path: &str, beside_exists: bool) -> (r:
    Result<String, String>)
    ensures
        match explicit {
            Some(p) => if p.exists {
                r matches Ok(s) && s@ == p.path@
            } else {
                r matches Err(e) && e@ == missing_assets(explicit, config_path@)
            },
            None => match beside_of(config_path@, assets_below()) {
                Some(tree) => if beside_exists {
                    r matches Ok(s) && s@ == tree
                } else {
                    r matches Err(e) && e@ == missing_assets(explicit, config_path@)
                },
                None => r matches Err(e) && e@ == missing_assets(explicit, config_path@),
            },
        },
{
    if let Some(p) = explicit {
        if p.exists {
            return Ok(p.path);
        }
        let mut out: String = "assets directory not found: ".to_owned();
        out.append(p.path.as_str());
        return Err(out);
    }
    if let Some(tree) = assets_beside(config_path) {
        if beside_exists {
            return Ok(tree);
        }
    }
    let mut out: String = "no assets/par6_description tree next to ".to_owned();
    out.append(config_path);
    out.append("; set --assets or PAR6_ASSETS");
    Err(out)
}

/// What is told of a model that could not be loaded.
pub fn load_message(model: &str, assets: &str, error: &str) -> (r: String)
    ensures
        r@ == "cannot load kinematics model "@ + model@ + " from "@ + assets@ + ": "@ + error@,
{
    let mut out: String = "cannot load kinematics model ".to_owned();
    out.append(model);
    out.append(" from ");
    out.append(assets);
    out.append(": ");
    out.append(error);
    out
}

/// The gravity torques the control loop is fed; `T` is a torque of each joint.
/// A model that fails leaves the last good ones.
#[derive(Clone, Copy, Debug, PartialEq, Eq)]
pub struct KinGravity<T> {
    /// The last good torques.
    pub last_good: T,
}

impl<T: Copy> KinGravity<T> {
    /// Begin with these.
    pub fn new(torques: T) -> (r: KinGravity<T>)
        ensures
            r.last_good == torques,
    {
        KinGravity { last_good: torques }
    }

    /// Take what the model gave.
    pub fn gravity(&mut self, computed: Option<T>) -> (r: T)
        ensures
            r == (match computed {
                Some(t) => t,
                None => old(self).last_good,
            }),
            final(self).last_good == r,
    {
        if let Some(t) = computed {
            self.last_good = t;
        }
        self.last_good
    }
}

/// The tool offset, as its users share it: the bits of its three coordinates,
/// and a count that is odd while they are being written.
#[derive(Clone, Copy, Debug, PartialEq, Eq)]
pub struct ToolOffset {
    /// The count.
    pub version: u64,
    /// The coordinates.
    pub xyz: [u64; 3],
}

impl ToolOffset {
    /// No offset.
    pub fn new() -> (r: ToolOffset)
        ensures
            r.version == 0,
            r.xyz@ == seq![0u64, 0u64, 0u64],
            r.settled(),
    {
        let r = ToolOffset { version: 0, xyz: [0, 0, 0] };
        assert(r.xyz@ =~= seq![0u64, 0u64, 0u64]);
        r
    }

    /// Whether nothing is being written.
    pub open spec fn settled(self) -> bool {
        self.version % 2 == 0
    }

    /// Begin to write.
    pub fn begin(&mut self)
        requires
            old(self).settled(),
        ensures
            final(self).version == old(self).version + 1,
            final(self).xyz@ == old(self).xyz@,
            write_step(*old(self), *final(self)),
    {
        self.version = self.version + 1;
    }

    /// Write one coordinate.
    pub fn store(&mut self, axis: usize, bits: u64)
        requires
            !old(self).settled(),
            axis < 3,
        ensures
            final(self).version == old(self).version,
            final(self).xyz@ == old(self).xyz@.update(axis as int, bits),
            write_step(*old(self), *final(self)),
    {
        self.xyz[axis] = bits;
    }

    /// End the write.
    pub fn finish(&mut self)
        requires
            !old(self).settled(),
        ensures
            final(self).version == (if old(self).version == u64::MAX {
                0
            } else {
                old(self).version + 1
            }),
            final(self).xyz@ == old(self).xyz@,
            old(self).version < u64::MAX ==> write_step(*old(self), *final(self)),
    {
        self.version = self.version.wrapping_add(1);
    }

    /// Publish an offset.
    pub fn set(&mut self, xyz: [u64; 3])
        requires
            old(self).settled(),
        ensures
            final(self).settled(),
            final(self).xyz@ == xyz@,
            final(self).version == (if old(self).version == u64::MAX - 1 {
                0
            } else {
                old(self).version + 2
            }),
    {
        self.begin();
        self.store(0, xyz[0]);
        self.store(1, xyz[1]);
        self.store(2, xyz[2]);
        assert(self.xyz@ =~= xyz@);
        self.finish();
    }

    /// The published offset.
    pub fn get(&self) -> (r: [u64; 3])
        ensures
            r@ == self.xyz@,
    {
        self.xyz
    }
}

/// Whether what was read between two readings of the count may be used: nothing
/// was being written at the first, and nothing was written since.
pub fn whole(before: u64, after: u64) -> (r: bool)
    ensures
        r == (before % 2 == 0 && after == before),
{
    before % 2 == 0 && after == before
}

/// What a writer may do to the offset in one step: nothing, begin, write a
/// coordinate it has begun to write, or finish.
pub open spec fn write_step(a: ToolOffset, b: ToolOffset) -> bool {
    ||| b.version == a.version && b.xyz@ == a.xyz@
    ||| a.settled() && b.version == a.version + 1 && b.xyz@ == a.xyz@
    ||| !a.settled() && b.version == a.version && exists|axis: int, bits: u64|
        0 <= axis < 3 && b.xyz@ == #[trigger] a.xyz@.update(axis, bits)
    ||| !a.settled() && b.version == a.version + 1 && b.xyz@ == a.xyz@
}

/// A run of the writer, step by step.
pub open spec fn write_run(run: Seq<ToolOffset>) -> bool {
    forall|i: int| 0 <= i < run.len() - 1 ==> #[trigger] write_step(run[i], run[i + 1])
}

/// The count never goes down, and while it stays at an even number the
/// coordinates stay too.
proof fn lemma_write_run(run: Seq<ToolOffset>, i: int, k: int)
    requires
        write_run(run),
        0 <= i <= k < run.len(),
    ensures
        run[i].version <= run[k].version,
        run[i].settled() && run[k].version == run[i].version ==> run[k].xyz@ == run[i].xyz@,
    decreases k - i,
{
    if i < k {
        lemma_write_run(run, i, k - 1);
        assert(write_step(run[k - 1], run[(k - 1) + 1]));
    }
}

/// A reader never sees half an offset: if the count is even when it starts and
/// the same when it ends, then whatever the writer did meanwhile, the three
/// coordinates it read one after the other are those of one published offset.
pub proof fn law_no_offset_is_read_half_written(
    run: Seq<ToolOffset>,
    before: int,
    x: int,
    y: int,
    z: int,
    after: int,
)
    requires
        write_run(run),
        0 <= before <= x <= y <= z <= after < run.len(),
        run[before].version % 2 == 0,
        run[after].version == run[before].version,
    ensures
        run[x].xyz@[0] == run[before].xyz@[0],
        run[y].xyz@[1] == run[before].xyz@[1],
        run[z].xyz@[2] == run[before].xyz@[2],
        run[before].settled(),
{
    lemma_write_run(run, before, x);
    lemma_write_run(run, x, after);
    lemma_write_run(run, before, y);
    lemma_write_run(run, y, after);
    lemma_write_run(run, before, z);
    lemma_write_run(run, z, after);
}

/// One store to the cell that all users of the offset share.
#[derive(Clone, Copy, Debug, PartialEq, Eq, Structural)]
pub enum OffsetStore {
    /// The count.
    Version(u64),
    /// One coordinate.
    Coordinate {
        /// Which.
        axis: usize,
        /// Its bits.
        bits: u64,
    },
}

/// A count after some more writes or ends of writes.
pub open spec fn counted_on(version: u64, by: int) -> u64 {
    if version + by > u64::MAX {
        (version + by - u64::MAX - 1) as u64
    } else {
        (version + by) as u64
    }
}

/// The stores that publish an offset: the write begins, the coordinates follow one
/// by one, and the write ends.
pub open spec fn stores_of(version: u64, xyz: Seq<u64>) -> Seq<OffsetStore> {
    seq![
        OffsetStore::Version(counted_on(version, 1)),
        OffsetStore::Coordinate { axis: 0, bits: xyz[0] },
        OffsetStore::Coordinate { axis: 1, bits: xyz[1] },
        OffsetStore::Coordinate { axis: 2, bits: xyz[2] },
        OffsetStore::Version(counted_on(version, 2)),
    ]
}

/// The stores that publish an offset over a cell with that count, in order.
pub fn set_stores(version: u64, xyz: [u64; 3]) -> (r: [OffsetStore; 5])
    ensures
        r@ == stores_of(version, xyz@),
{
    let r = [
        OffsetStore::Version(version.wrapping_add(1)),
        OffsetStore::Coordinate { axis: 0, bits: xyz[0] },
        OffsetStore::Coordinate { axis: 1, bits: xyz[1] },
        OffsetStore::Coordinate { axis: 2, bits: xyz[2] },
        OffsetStore::Version(version.wrapping_add(2)),
    ];
    assert(r@ =~= stores_of(version, xyz@));
    r
}

/// What the shared cell holds.
pub struct OffsetCell {
    /// The count.
    pub version: u64,
    /// The coordinates.
    pub xyz: Seq<u64>,
}

impl OffsetCell {
    /// The cell after a store.
    pub open spec fn stored(self, store: OffsetStore) -> OffsetCell {
        match store {
            OffsetStore::Version(version) => OffsetCell { version, ..self },
            OffsetStore::Coordinate { axis, bits } => OffsetCell {
                xyz: self.xyz.update(axis as int, bits),
                ..self
            },
        }
    }
}

/// Whether some offsets can be published one after the other.
pub open spec fn publishable(sets: Seq<Seq<u64>>) -> bool {
    &&& 2 * sets.len() <= u64::MAX
    &&& forall|k: int| 0 <= k < sets.len() ==> (#[trigger] sets[k]).len() == 3
}

/// The offset that stands once the first `k` were published.
pub open spec fn published(sets: Seq<Seq<u64>>, k: int) -> Seq<u64> {
    if k <= 0 {
        seq![0u64, 0u64, 0u64]
    } else {
        sets[k - 1]
    }
}

/// The shared cell after the first `n` stores of one writer that publishes these
/// offsets; publishing one takes five.
pub open spec fn cell_after(sets: Seq<Seq<u64>>, n: nat) -> OffsetCell
    decreases n,
{
    if n == 0 {
        OffsetCell { version: 0, xyz: seq![0u64, 0u64, 0u64] }
    } else {
        let k = (n - 1) / 5;
        cell_after(sets, (n - 1) as nat).stored(stores_of((2 * k) as u64, sets[k])[(n - 1) % 5])
    }
}

/// What the cell holds after `n` stores: the count is twice the offsets that are
/// published, and one more while another is written, and as many coordinates of that
/// one are there as were stored.
proof fn lemma_cell_after(sets: Seq<Seq<u64>>, n: nat)
    requires
        publishable(sets),
        n <= 5 * sets.len(),
    ensures
        ({
            let k = n as int / 5;
            let phase = n as int % 5;
            let cell = cell_after(sets, n);
            &&& cell.version == 2 * k + (if phase > 0 {
                1int
            } else {
                0
            })
            &&& cell.xyz.len() == 3
            &&& forall|axis: int|
                0 <= axis < 3 ==> #[trigger] cell.xyz[axis] == (if axis < phase - 1 {
                    sets[k][axis]
                } else {
                    published(sets, k)[axis]
                })
        }),
    decreases n,
{
    if n > 0 {
        lemma_cell_after(sets, (n - 1) as nat);
        let before = cell_after(sets, (n - 1) as nat);
        let k = (n - 1) / 5;
        let phase = (n - 1) % 5;
        assert(sets[k].len() == 3);
        let store = stores_of((2 * k) as u64, sets[k])[phase];
        let cell = before.stored(store);
        assert(cell_after(sets, n) == cell);
        if phase == 4 {
            assert(n as int / 5 == k + 1 && n as int % 5 == 0);
            assert forall|axis: int| 0 <= axis < 3 implies #[trigger] cell.xyz[axis] == sets[k][axis] by {
                assert(before.xyz[axis] == sets[k][axis]);
            }
        } else {
            assert(n as int / 5 == k && n as int % 5 == phase + 1);
            assert forall|axis: int| 0 <= axis < 3 implies #[trigger] cell.xyz[axis] == (if axis
                < phase {
                sets[k][axis]
            } else {
                published(sets, k)[axis]
            }) by {
                assert(before.xyz[axis] == (if axis < phase - 1 {
                    sets[k][axis]
                } else {
                    published(sets, k)[axis]
                }));
            }
        }
    }
}

/// Every user of the offset reads the one that was published last, whole and bit for
/// bit, and no offset at all if none was: whichever of the clones it reads through,
/// since all of them read the one cell, and however its five loads fall among the
/// writer's stores, if it may use what it read then no write was in progress and the
/// coordinates are those of the last write that had ended, both when it began to read
/// and when it was done.
pub proof fn law_every_clone_reads_the_last_offset_whole(
    sets: Seq<Seq<u64>>,
    before: nat,
    x: nat,
    y: nat,
    z: nat,
    after: nat,
)
    requires
        publishable(sets),
        before <= x <= y <= z <= after <= 5 * sets.len(),
        cell_after(sets, before).version % 2 == 0,
        cell_after(sets, after).version == cell_after(sets, before).version,
    ensures
        before % 5 == 0,
        after / 5 == before / 5,
        seq![
            cell_after(sets, x).xyz[0],
            cell_after(sets, y).xyz[1],
            cell_after(sets, z).xyz[2],
        ] == published(sets, before as int / 5),
{
    lemma_cell_after(sets, before);
    lemma_cell_after(sets, after);
    let k = before as int / 5;
    assert(after == before);
    if k > 0 {
        assert(sets[k - 1].len() == 3);
    }
    let cell = cell_after(sets, before);
    assert(cell.xyz[0] == published(sets, k)[0]);
    assert(cell.xyz[1] == published(sets, k)[1]);
    assert(cell.xyz[2] == published(sets, k)[2]);
    assert(seq![
        cell_after(sets, x).xyz[0],
        cell_after(sets, y).xyz[1],
        cell_after(sets, z).xyz[2],
    ] =~= published(sets, k));
}

/// A tool is known by how its name begins, whatever follows; the bare flange by its
/// whole name, in whatever case; and nothing else is known.
pub proof fn law_a_tool_is_known_by_its_name(rest: Seq<char>, name: Seq<char>)
    ensures
        known_variant("MSG"@ + rest) == Some(GripperVariant::Msg),
        known_variant("SSG48"@ + rest) == Some(GripperVariant::Ssg48),
        known_variant("flange"@) == Some(GripperVariant::Flange),
        known_variant("FLANGE"@) == Some(GripperVariant::Flange),
        known_variant(name) matches Some(v) ==> match v {
            GripperVariant::Flange => name.len() == 6,
            GripperVariant::Msg => "MSG"@.is_prefix_of(name),
            GripperVariant::Ssg48 => "SSG48"@.is_prefix_of(name),
        },
{
    reveal_strlit("flange");
    reveal_strlit("FLANGE");
    reveal_strlit("MSG");
    reveal_strlit("SSG48");
    assert(("MSG"@ + rest).take(3) =~= "MSG"@);
    assert(("SSG48"@ + rest).take(5) =~= "SSG48"@);
    assert("MSG"@.is_prefix_of("MSG"@ + rest));
    assert("SSG48"@.is_prefix_of("SSG48"@ + rest));
    let msg = "MSG"@ + rest;
    let ssg = "SSG48"@ + rest;
    assert(msg[0] == 'M' && ssg[0] == 'S');
    assert(lower(msg[0]) != lower("flange"@[0]));
    assert(lower(ssg[0]) != lower("flange"@[0]));
    if "MSG"@.is_prefix_of(ssg) {
        assert(ssg.subrange(0, 3)[0] == "MSG"@[0]);
    }
}

/// A count of writes goes on by one with each, and past the greatest from zero.
pub proof fn law_a_count_goes_round(version: u64, by: int)
    requires
        0 <= by <= u64::MAX,
    ensures
        counted_on(version, by) == (version + by) % 0x1_0000_0000_0000_0000,
        counted_on(version, 1) != version,
        counted_on(counted_on(version, 1), 1) == counted_on(version, 2),
        counted_on(version, 2) % 2 == version % 2,
{
}

/// A directory of models that is not there is told by its path where it was set, and by the
/// configuration that it would be next to where it was not.
pub proof fn law_missing_models_are_told_by_where_they_would_be(
    place: Place,
    config_path: Seq<char>,
)
    ensures
        missing_assets(Some(place), config_path) == "assets directory not found: "@ + place.path@,
        missing_assets(None, config_path) == "no assets/par6_description tree next to "@
            + config_path + "; set --assets or PAR6_ASSETS"@,
        assets_below() == "assets/par6_description"@,
{
}

} // verus!
