//! Writing measured values into a configuration file as it stands.
//!
//! The file's comments and layout survive: what is not replaced is kept
//! character for character. Values come already rendered.
use crate::selfcal::entries::{
    any_entry, close_of, closing, find_any, find_array, find_top, is_flat, lemma_array_found, lemma_closing,
    lemma_first_line_found, lemma_flat_closes, lemma_top_entry, lemma_value_within, sets_array,
    top_entry, value_at, Lex,
};
use crate::selfcal::lines::{
    find, find_line, first_at, is_space, is_word, line_at, line_end, set_value, sets_key, stands,
    with_value,
};
use crate::text::{chars_of, decimal, decimal_text, push_chars};
use vstd::prelude::*;

verus! {

/// Why a value could not be written.
#[derive(Debug)]
pub enum PatchError {
    /// The file names no such joint.
    NoJoint {
        /// The joint.
        joint: usize,
    },
    /// The joint has no such table.
    NoTable {
        /// The joint.
        joint: usize,
        /// The table's header.
        header: String,
    },
    /// The key holds no array.
    NotAnArray {
        /// The key.
        key: String,
    },
    /// The key's array does not end.
    NotClosed {
        /// The key.
        key: String,
    },
}

/// What an error says.
pub enum PatchFault {
    /// The file names no such joint.
    NoJoint {
        /// The joint.
        joint: int,
    },
    /// The joint has no such table.
    NoTable {
        /// The joint.
        joint: int,
        /// The table's header.
        header: Seq<char>,
    },
    /// The key holds no array.
    NotAnArray {
        /// The key.
        key: Seq<char>,
    },
    /// The key's array does not end.
    NotClosed {
        /// The key.
        key: Seq<char>,
    },
}

impl View for PatchError {
    type V = PatchFault;

    open spec fn view(&self) -> PatchFault {
        match *self {
            PatchError::NoJoint { joint } => PatchFault::NoJoint { joint: joint as int },
            PatchError::NoTable { joint, header } => PatchFault::NoTable {
                joint: joint as int,
                header: header@,
            },
            PatchError::NotAnArray { key } => PatchFault::NotAnArray { key: key@ },
            PatchError::NotClosed { key } => PatchFault::NotClosed { key: key@ },
        }
    }
}

/// How the file names a joint.
pub open spec fn joint_word(joint: int) -> Seq<char> {
    "joint"@ + decimal_text((joint + 1) as nat)
}

impl PatchFault {
    /// What happened, in words.
    pub open spec fn words(self) -> Seq<char> {
        match self {
            PatchFault::NoJoint { joint } => "configuration has no "@ + joint_word(joint),
            PatchFault::NoTable { joint, header } => joint_word(joint) + " has no "@ + header
                + " table"@,
            PatchFault::NotAnArray { key } => key + " is not an array"@,
            PatchFault::NotClosed { key } => key + " is not closed"@,
        }
    }
}

/// How the file names a joint.
fn joint_key(joint: usize) -> (r: String)
    requires
        joint < u64::MAX,
    ensures
        r@ == joint_word(joint as int),
{
    let mut out: String = "joint".to_owned();
    let number = decimal(joint as u64 + 1);
    out.append(number.as_str());
    out
}

impl PatchError {
    /// What happened, in words.
    pub fn message(&self) -> (r: String)
        requires
            self matches PatchError::NoJoint { joint } ==> joint < u64::MAX,
            self matches PatchError::NoTable { joint, header: _ } ==> joint < u64::MAX,
        ensures
            r@ == self@.words(),
    {
        match self {
            PatchError::NoJoint { joint } => {
                let mut out: String = "configuration has no ".to_owned();
                let name = joint_key(*joint);
                out.append(name.as_str());
                out
            },
            PatchError::NoTable { joint, header } => {
                let mut out: String = joint_key(*joint);
                out.append(" has no ");
                out.append(header.as_str());
                out.append(" table");
                out
            },
            PatchError::NotAnArray { key } => {
                let mut out: String = key.clone();
                out.append(" is not an array");
                out
            },
            PatchError::NotClosed { key } => {
                let mut out: String = key.clone();
                out.append(" is not closed");
                out
            },
        }
    }
}

/// What some strings hold.
pub open spec fn texts(strings: Seq<String>) -> Seq<Seq<char>> {
    strings.map_values(|s: String| s@)
}

/// Items as an array lists them.
pub open spec fn listed(items: Seq<Seq<char>>) -> Seq<char>
    decreases items.len(),
{
    if items.len() == 0 {
        Seq::empty()
    } else if items.len() == 1 {
        items[0]
    } else {
        listed(items.drop_last()) + ", "@ + items.last()
    }
}

/// Items as an array lists them.
fn list(values: &[String]) -> (r: String)
    ensures
        r@ == listed(texts(values@)),
{
    let mut out: String = String::new();
    let mut i: usize = 0;
    assert(texts(values@).take(0) =~= Seq::<Seq<char>>::empty());
    while i < values.len()
        invariant
            i <= values@.len(),
            out@ == listed(texts(values@).take(i as int)),
        decreases values@.len() - i,
    {
        let ghost next = texts(values@).take(i + 1);
        assert(next.drop_last() =~= texts(values@).take(i as int));
        assert(next.last() == values@[i as int]@);
        if i > 0 {
            out.append(", ");
        }
        out.append(values[i].as_str());
        if i == 0 {
            assert(out@ =~= next[0]);
        }
        i += 1;
    }
    assert(texts(values@).take(i as int) =~= texts(values@));
    out
}

/// `text` with the array that the entry at `at` sets `key` to replaced; where there
/// is no such entry, a line of its own comes first.
pub open spec fn with_array_at(
    text: Seq<char>,
    key: Seq<char>,
    items: Seq<Seq<char>>,
    at: Option<int>,
) -> Result<Seq<char>, PatchFault> {
    match at {
        None => Ok(key + " = ["@ + listed(items) + "]  # selfcal: measured\n"@ + text),
        Some(from) => if sets_array(text, key, from) {
            let open = value_at(text, key, from);
            match closing(text, open + 1, Lex::Plain, 1) {
                None => Err(PatchFault::NotClosed { key }),
                Some(close) => Ok(
                    text.take(open) + seq!['['] + listed(items) + seq![']'] + text.skip(close + 1),
                ),
            }
        } else {
            Err(PatchFault::NotAnArray { key })
        },
    }
}

/// `text` with the top-level array at `key` replaced; where the file has none
/// yet, its line comes first. What a comment, a string or a table holds is no
/// top-level array.
pub open spec fn with_array(text: Seq<char>, key: Seq<char>, items: Seq<Seq<char>>) -> Result<
    Seq<char>,
    PatchFault,
> {
    with_array_at(text, key, items, top_entry(text, key, 0))
}

/// `text` with the array at `key` replaced, at the top level or else in the first
/// table that has one; where the file has none yet, its line comes first.
pub open spec fn with_nested_array(
    text: Seq<char>,
    key: Seq<char>,
    items: Seq<Seq<char>>,
) -> Result<Seq<char>, PatchFault> {
    let top = top_entry(text, key, 0);
    with_array_at(
        text,
        key,
        items,
        if top is Some {
            top
        } else {
            any_entry(text, key, 0)
        },
    )
}

/// Replace the array that the entry at `at` sets the key to, or add a line.
fn write_array(
    text: &mut String,
    chars: &Vec<char>,
    name: &Vec<char>,
    key: &str,
    values: &[String],
    at: Option<usize>,
) -> (r: Result<(), PatchError>)
    requires
        chars@ == old(text)@,
        name@ == key@,
        at matches Some(i) ==> i < chars@.len() && sets_key(
            chars@,
            name@,
            i as int,
            line_end(chars@, i as int),
        ),
    ensures
        match with_array_at(
            old(text)@,
            key@,
            texts(values@),
            match at {
                Some(i) => Some(i as int),
                None => None,
            },
        ) {
            Ok(t) => r is Ok && final(text)@ == t,
            Err(e) => (r matches Err(f) && f@ == e) && final(text)@ == old(text)@,
        },
{
    let rendered = list(values);
    let n: usize = chars.len();
    let from: usize = match at {
        Some(i) => i,
        None => {
            let mut out: String = key.to_owned();
            out.append(" = [");
            out.append(rendered.as_str());
            out.append("]  # selfcal: measured\n");
            out.append(text.as_str());
            *text = out;
            return Ok(());
        },
    };
    let open: usize = match find_array(chars, name, from) {
        Some(i) => i,
        None => {
            return Err(PatchError::NotAnArray { key: key.to_owned() });
        },
    };
    let close: usize = match close_of(chars, open + 1) {
        Some(i) => i,
        None => {
            return Err(PatchError::NotClosed { key: key.to_owned() });
        },
    };
    let mut out: String = String::new();
    push_chars(&mut out, chars, 0, open);
    out.push('[');
    out.append(rendered.as_str());
    out.push(']');
    push_chars(&mut out, chars, close + 1, n);
    assert(out@ =~= chars@.take(open as int) + seq!['['] + rendered@ + seq![']'] + chars@.skip(
        close + 1,
    ));
    *text = out;
    Ok(())
}

/// Replace the top-level array at `key`, or add its line where the file has none
/// yet. On an error the text stays as it is.
pub fn patch_array(text: &mut String, key: &str, values: &[String]) -> (r: Result<(), PatchError>)
    ensures
        match with_array(old(text)@, key@, texts(values@)) {
            Ok(t) => r is Ok && final(text)@ == t,
            Err(e) => (r matches Err(f) && f@ == e) && final(text)@ == old(text)@,
        },
{
    let chars = chars_of(text.as_str());
    let name = chars_of(key);
    let at = find_top(&chars, &name);
    write_array(text, &chars, &name, key, values, at)
}

/// Replace the array at `key` at the top level or else in a table, or add its line
/// where the file has none yet. On an error the text stays as it is.
pub fn patch_nested_array(text: &mut String, key: &str, values: &[String]) -> (r: Result<
    (),
    PatchError,
>)
    ensures
        match with_nested_array(old(text)@, key@, texts(values@)) {
            Ok(t) => r is Ok && final(text)@ == t,
            Err(e) => (r matches Err(f) && f@ == e) && final(text)@ == old(text)@,
        },
{
    let chars = chars_of(text.as_str());
    let name = chars_of(key);
    let at = match find_top(&chars, &name) {
        Some(i) => Some(i),
        None => find_any(&chars, &name),
    };
    write_array(text, &chars, &name, key, values, at)
}

/// A value for a key, already rendered.
#[derive(Debug)]
pub struct Setting {
    /// The key.
    pub key: String,
    /// The value.
    pub value: String,
}

/// `block` with some values set, in order.
pub open spec fn with_values(block: Seq<char>, settings: Seq<Setting>) -> Seq<char>
    decreases settings.len(),
{
    if settings.len() == 0 {
        block
    } else {
        with_value(
            with_values(block, settings.drop_last()),
            settings.last().key@,
            settings.last().value@,
        )
    }
}

/// `text` with a joint's table changed: the first line of that header between the
/// line that names the joint and the next joint, up to the next table.
pub open spec fn with_block(
    text: Seq<char>,
    joint: int,
    header: Seq<char>,
    change: spec_fn(Seq<char>) -> Seq<char>,
) -> Result<Seq<char>, PatchFault> {
    let n = text.len() as int;
    match line_at(text, "name = \""@ + joint_word(joint) + seq!['"'], 0, n) {
        None => Err(PatchFault::NoJoint { joint }),
        Some(name) => {
            let next = match line_at(text, "[[joints]]"@, name, n) {
                Some(i) => i,
                None => n,
            };
            match line_at(text, header, name, next) {
                None => Err(PatchFault::NoTable { joint, header }),
                Some(table) => {
                    let body = table + header.len();
                    let end = match first_at(text, seq!['\n', '['], body, n) {
                        Some(i) => i + 1,
                        None => n,
                    };
                    Ok(text.take(body) + change(text.subrange(body, end)) + text.skip(end))
                },
            }
        },
    }
}

/// `text` with some values set in a joint's table.
pub open spec fn with_table(
    text: Seq<char>,
    joint: int,
    header: Seq<char>,
    settings: Seq<Setting>,
) -> Result<Seq<char>, PatchFault> {
    with_block(text, joint, header, |block: Seq<char>| with_values(block, settings))
}

/// Set some values in a joint's table, keeping everything else. On an error the
/// text stays as it is.
pub fn patch_joint_table(text: &mut String, joint: usize, header: &str, settings: &[Setting]) -> (r:
    Result<(), PatchError>)
    requires
        joint < u64::MAX,
    ensures
        match with_table(old(text)@, joint as int, header@, settings@) {
            Ok(t) => r is Ok && final(text)@ == t,
            Err(e) => (r matches Err(f) && f@ == e) && final(text)@ == old(text)@,
        },
{
    let chars = chars_of(text.as_str());
    let n: usize = chars.len();
    let mut pattern: String = "name = \"".to_owned();
    let word = joint_key(joint);
    pattern.append(word.as_str());
    pattern.push('"');
    let pattern = chars_of(pattern.as_str());
    assert(pattern@ =~= "name = \""@ + joint_word(joint as int) + seq!['"']);
    let name: usize = match find_line(&chars, &pattern, 0, n) {
        Some(i) => i,
        None => {
            return Err(PatchError::NoJoint { joint });
        },
    };
    let pattern = chars_of("[[joints]]");
    let next: usize = match find_line(&chars, &pattern, name, n) {
        Some(i) => i,
        None => n,
    };
    let pattern = chars_of(header);
    let table: usize = match find_line(&chars, &pattern, name, next) {
        Some(i) => i,
        None => {
            return Err(PatchError::NoTable { joint, header: header.to_owned() });
        },
    };
    let body: usize = table + pattern.len();
    let pattern: Vec<char> = vec!['\n', '['];
    assert(pattern@ =~= seq!['\n', '[']);
    let end: usize = match find(&chars, &pattern, body, n) {
        Some(i) => i + 1,
        None => n,
    };
    let mut block: String = String::new();
    push_chars(&mut block, &chars, body, end);
    assert(block@ =~= chars@.subrange(body as int, end as int));
    let mut k: usize = 0;
    assert(settings@.take(0) =~= Seq::<Setting>::empty());
    while k < settings.len()
        invariant
            k <= settings@.len(),
            block@ == with_values(
                chars@.subrange(body as int, end as int),
                settings@.take(k as int),
            ),
        decreases settings@.len() - k,
    {
        assert(settings@.take(k + 1).drop_last() =~= settings@.take(k as int));
        assert(settings@.take(k + 1).last() == settings@[k as int]);
        block = set_value(block.as_str(), settings[k].key.as_str(), settings[k].value.as_str());
        k += 1;
    }
    assert(settings@.take(k as int) =~= settings@);
    let mut out: String = String::new();
    push_chars(&mut out, &chars, 0, body);
    out.append(block.as_str());
    push_chars(&mut out, &chars, end, n);
    assert(out@ =~= chars@.take(body as int) + block@ + chars@.skip(end as int));
    *text = out;
    Ok(())
}

/// The limits that were found for a joint, each rendered where it is not what
/// the file has.
#[derive(Debug)]
pub struct FoundLimits {
    /// The velocity.
    pub velocity: Option<String>,
    /// The acceleration.
    pub acceleration: Option<String>,
    /// The jerk.
    pub jerk: Option<String>,
    /// Whether the jerk is one that the joint reached.
    pub jerk_measured: bool,
}

/// The gains that were found for a joint, each rendered where it is not what
/// the file has.
#[derive(Debug)]
pub struct FoundGains {
    /// The proportional gain.
    pub kpv: Option<String>,
    /// The integral gain.
    pub kiv: Option<String>,
}

/// `block` with a value set, where there is one.
pub open spec fn with_optional(block: Seq<char>, key: Seq<char>, value: Option<String>) -> Seq<
    char,
> {
    match value {
        Some(v) => with_value(block, key, v@),
        None => block,
    }
}

/// The value as a setting of `key`, if there is one.
fn push_setting(out: &mut Vec<Setting>, key: &str, value: &Option<String>)
    ensures
        final(out)@.len() == old(out)@.len() + (if value is Some {
            1int
        } else {
            0
        }),
        forall|b: Seq<char>| #[trigger]
            with_values(b, final(out)@) == with_optional(with_values(b, old(out)@), key@, *value),
{
    let ghost before = out@;
    if let Some(v) = value {
        out.push(Setting { key: key.to_owned(), value: v.clone() });
        assert(out@.drop_last() =~= before);
    }
}

/// What some settings do to a block: each value that is there, in order.
pub open spec fn exec_block(block: Seq<char>, found: FoundLimits) -> Seq<char> {
    let jerk = if found.jerk_measured {
        found.jerk
    } else {
        None
    };
    with_optional(
        with_optional(
            with_optional(block, "velocity_rad_s"@, found.velocity),
            "acceleration_rad_s2"@,
            found.acceleration,
        ),
        "jerk_rad_s3"@,
        jerk,
    )
}

/// Whether anything is written of what was found.
pub open spec fn moved_limits(found: FoundLimits) -> bool {
    found.velocity is Some || found.acceleration is Some || (found.jerk_measured && found.jerk
        is Some)
}

/// `text` with what was found for a joint written to its limits. A cap that was
/// not moved keeps its line, and so does a jerk that was only bounded; where
/// nothing is written the table need not be there.
pub open spec fn with_exec_limits(text: Seq<char>, joint: int, found: FoundLimits) -> Result<
    Seq<char>,
    PatchFault,
> {
    if moved_limits(found) {
        with_block(
            text,
            joint,
            "[joints.limits.exec]"@,
            |block: Seq<char>| exec_block(block, found),
        )
    } else {
        Ok(text)
    }
}

/// Write what was found for a joint to its limits. On an error the text stays
/// as it is.
pub fn patch_exec_limits(text: &mut String, joint: usize, found: &FoundLimits) -> (r: Result<
    (),
    PatchError,
>)
    requires
        joint < u64::MAX,
    ensures
        match with_exec_limits(old(text)@, joint as int, *found) {
            Ok(t) => r is Ok && final(text)@ == t,
            Err(e) => (r matches Err(f) && f@ == e) && final(text)@ == old(text)@,
        },
{
    let mut settings: Vec<Setting> = Vec::new();
    push_setting(&mut settings, "velocity_rad_s", &found.velocity);
    push_setting(&mut settings, "acceleration_rad_s2", &found.acceleration);
    if found.jerk_measured {
        push_setting(&mut settings, "jerk_rad_s3", &found.jerk);
    }
    if settings.len() == 0 {
        return Ok(());
    }
    assert forall|b: Seq<char>| #[trigger] with_values(b, settings@) == exec_block(b, *found) by {}
    patch_joint_table(text, joint, "[joints.limits.exec]", settings.as_slice())
}

/// `text` with what was found for a joint written to its gains.
pub open spec fn with_gains(text: Seq<char>, joint: int, found: FoundGains) -> Result<
    Seq<char>,
    PatchFault,
> {
    if found.kpv is Some || found.kiv is Some {
        with_block(
            text,
            joint,
            "[joints.gains]"@,
            |block: Seq<char>|
                with_optional(with_optional(block, "kpv"@, found.kpv), "kiv"@, found.kiv),
        )
    } else {
        Ok(text)
    }
}

/// Write what was found for a joint to its gains: only what moved. On an error
/// the text stays as it is.
pub fn patch_gains(text: &mut String, joint: usize, found: &FoundGains) -> (r: Result<
    (),
    PatchError,
>)
    requires
        joint < u64::MAX,
    ensures
        match with_gains(old(text)@, joint as int, *found) {
            Ok(t) => r is Ok && final(text)@ == t,
            Err(e) => (r matches Err(f) && f@ == e) && final(text)@ == old(text)@,
        },
{
    let mut settings: Vec<Setting> = Vec::new();
    push_setting(&mut settings, "kpv", &found.kpv);
    push_setting(&mut settings, "kiv", &found.kiv);
    if settings.len() == 0 {
        return Ok(());
    }
    patch_joint_table(text, joint, "[joints.gains]", settings.as_slice())
}

/// A joint's measured friction, rendered.
#[derive(Debug)]
pub struct Friction {
    /// Viscous.
    pub viscous: String,
    /// Coulomb.
    pub coulomb: String,
}

/// What was measured of the friction: per joint what the run measured, and what
/// the file has for a joint the run skipped.
#[derive(Debug)]
pub struct FrictionUpdate {
    /// What was measured.
    pub measured: Vec<Option<Friction>>,
    /// The viscous friction in the file.
    pub viscous: Vec<String>,
    /// The Coulomb friction in the file.
    pub coulomb: Vec<String>,
}

/// Everything a run measured.
#[derive(Debug)]
pub struct Measured {
    /// The gravity correction.
    pub correction: Option<Vec<String>>,
    /// The friction.
    pub friction: Option<FrictionUpdate>,
    /// The gains, per joint.
    pub gains: Option<Vec<Option<FoundGains>>>,
    /// The limits, per joint.
    pub limits: Option<Vec<Option<FoundLimits>>>,
}

/// The gravity scale that goes with a measured correction: one for each of the
/// six joints, because the correction supersedes any trim.
pub open spec fn unit_scale() -> Seq<Seq<char>> {
    seq!["1.0"@, "1.0"@, "1.0"@, "1.0"@, "1.0"@, "1.0"@]
}

/// The gravity scale that goes with a measured correction.
fn unit_values() -> (r: Vec<String>)
    ensures
        texts(r@) == unit_scale(),
{
    let mut out: Vec<String> = Vec::new();
    let mut i: usize = 0;
    while i < 6
        invariant
            i <= 6,
            out@.len() == i,
            forall|k: int| 0 <= k < i ==> (#[trigger] out@[k])@ == "1.0"@,
        decreases 6 - i,
    {
        out.push("1.0".to_owned());
        i += 1;
    }
    assert(texts(out@) =~= unit_scale());
    out
}

/// The values to write: measured ones, and the file's where none was.
pub open spec fn measured_or_kept(
    measured: Seq<Option<Friction>>,
    kept: Seq<String>,
    coulomb: bool,
) -> Seq<Seq<char>> {
    let n = if measured.len() <= kept.len() {
        measured.len()
    } else {
        kept.len()
    };
    Seq::new(
        n,
        |i: int|
            match measured[i] {
                Some(m) => if coulomb {
                    m.coulomb@
                } else {
                    m.viscous@
                },
                None => kept[i]@,
            },
    )
}

/// The values to write.
fn choose_values(measured: &Vec<Option<Friction>>, kept: &Vec<String>, coulomb: bool) -> (r: Vec<
    String,
>)
    ensures
        texts(r@) == measured_or_kept(measured@, kept@, coulomb),
{
    let mut out: Vec<String> = Vec::new();
    let mut i: usize = 0;
    while i < measured.len() && i < kept.len()
        invariant
            i <= measured@.len(),
            i <= kept@.len(),
            out@.len() == i,
            forall|k: int|
                0 <= k < i ==> (#[trigger] out@[k])@ == measured_or_kept(
                    measured@,
                    kept@,
                    coulomb,
                )[k],
        decreases measured@.len() - i,
    {
        let value = match &measured[i] {
            Some(m) => if coulomb {
                m.coulomb.clone()
            } else {
                m.viscous.clone()
            },
            None => kept[i].clone(),
        };
        out.push(value);
        i += 1;
    }
    assert(texts(out@) =~= measured_or_kept(measured@, kept@, coulomb));
    out
}

/// `text` with a measured correction.
pub open spec fn with_correction(text: Seq<char>, correction: Option<Vec<String>>) -> Result<
    Seq<char>,
    PatchFault,
> {
    match correction {
        None => Ok(text),
        Some(values) => match with_array(text, "gravity_correction"@, texts(values@)) {
            Err(e) => Err(e),
            Ok(t) => with_array(t, "gravity_scale"@, unit_scale()),
        },
    }
}

/// `text` with a measured friction, which belongs to the simulator's table.
pub open spec fn with_friction(text: Seq<char>, friction: Option<FrictionUpdate>) -> Result<
    Seq<char>,
    PatchFault,
> {
    match friction {
        None => Ok(text),
        Some(f) => match with_nested_array(
            text,
            "viscous_nm_s"@,
            measured_or_kept(f.measured@, f.viscous@, false),
        ) {
            Err(e) => Err(e),
            Ok(t) => with_nested_array(
                t,
                "coulomb_nm"@,
                measured_or_kept(f.measured@, f.coulomb@, true),
            ),
        },
    }
}

/// `text` with the gains of some joints, in order.
pub open spec fn with_all_gains(text: Seq<char>, found: Seq<Option<FoundGains>>) -> Result<
    Seq<char>,
    PatchFault,
>
    decreases found.len(),
{
    if found.len() == 0 {
        Ok(text)
    } else {
        match with_all_gains(text, found.drop_last()) {
            Err(e) => Err(e),
            Ok(t) => match found.last() {
                None => Ok(t),
                Some(f) => with_gains(t, found.len() - 1, f),
            },
        }
    }
}

/// `text` with the limits of some joints, in order.
pub open spec fn with_all_limits(text: Seq<char>, found: Seq<Option<FoundLimits>>) -> Result<
    Seq<char>,
    PatchFault,
>
    decreases found.len(),
{
    if found.len() == 0 {
        Ok(text)
    } else {
        match with_all_limits(text, found.drop_last()) {
            Err(e) => Err(e),
            Ok(t) => match found.last() {
                None => Ok(t),
                Some(f) => with_exec_limits(t, found.len() - 1, f),
            },
        }
    }
}

/// `text` with everything a run measured: correction, friction, gains, limits.
pub open spec fn with_measured(text: Seq<char>, measured: Measured) -> Result<
    Seq<char>,
    PatchFault,
> {
    match with_correction(text, measured.correction) {
        Err(e) => Err(e),
        Ok(t) => match with_friction(t, measured.friction) {
            Err(e) => Err(e),
            Ok(t) => {
                let tuned = match measured.gains {
                    Some(g) => with_all_gains(t, g@),
                    None => Ok(t),
                };
                match tuned {
                    Err(e) => Err(e),
                    Ok(t) => match measured.limits {
                        Some(l) => with_all_limits(t, l@),
                        None => Ok(t),
                    },
                }
            },
        },
    }
}

/// An error with the joints after it does not go away.
proof fn lemma_gains_fail(text: Seq<char>, found: Seq<Option<FoundGains>>, n: int)
    requires
        0 <= n <= found.len(),
        with_all_gains(text, found.take(n)) is Err,
    ensures
        with_all_gains(text, found) == with_all_gains(text, found.take(n)),
    decreases found.len() - n,
{
    if n < found.len() {
        assert(found.take(n + 1).drop_last() =~= found.take(n));
        lemma_gains_fail(text, found, n + 1);
    } else {
        assert(found.take(n) =~= found);
    }
}

/// An error with the joints after it does not go away.
proof fn lemma_limits_fail(text: Seq<char>, found: Seq<Option<FoundLimits>>, n: int)
    requires
        0 <= n <= found.len(),
        with_all_limits(text, found.take(n)) is Err,
    ensures
        with_all_limits(text, found) == with_all_limits(text, found.take(n)),
    decreases found.len() - n,
{
    if n < found.len() {
        assert(found.take(n + 1).drop_last() =~= found.take(n));
        lemma_limits_fail(text, found, n + 1);
    } else {
        assert(found.take(n) =~= found);
    }
}

/// Write the gains of some joints.
fn patch_all_gains(text: &mut String, found: &Vec<Option<FoundGains>>) -> (r: Result<
    (),
    PatchError,
>)
    requires
        found@.len() < u64::MAX,
    ensures
        match with_all_gains(old(text)@, found@) {
            Ok(t) => r is Ok && final(text)@ == t,
            Err(e) => r matches Err(f) && f@ == e,
        },
{
    let ghost before = text@;
    let mut j: usize = 0;
    assert(found@.take(0) =~= Seq::<Option<FoundGains>>::empty());
    while j < found.len()
        invariant
            j <= found@.len() < u64::MAX,
            before == old(text)@,
            with_all_gains(before, found@.take(j as int)) == Ok::<Seq<char>, PatchFault>(text@),
        decreases found@.len() - j,
    {
        assert(found@.take(j + 1).drop_last() =~= found@.take(j as int));
        assert(found@.take(j + 1).last() == found@[j as int]);
        if let Some(f) = &found[j] {
            if let Err(e) = patch_gains(text, j, f) {
                proof {
                    lemma_gains_fail(before, found@, j + 1);
                }
                return Err(e);
            }
        }
        j += 1;
    }
    assert(found@.take(j as int) =~= found@);
    Ok(())
}

/// Write the limits of some joints.
fn patch_all_limits(text: &mut String, found: &Vec<Option<FoundLimits>>) -> (r: Result<
    (),
    PatchError,
>)
    requires
        found@.len() < u64::MAX,
    ensures
        match with_all_limits(old(text)@, found@) {
            Ok(t) => r is Ok && final(text)@ == t,
            Err(e) => r matches Err(f) && f@ == e,
        },
{
    let ghost before = text@;
    let mut j: usize = 0;
    assert(found@.take(0) =~= Seq::<Option<FoundLimits>>::empty());
    while j < found.len()
        invariant
            j <= found@.len() < u64::MAX,
            before == old(text)@,
            with_all_limits(before, found@.take(j as int)) == Ok::<Seq<char>, PatchFault>(text@),
        decreases found@.len() - j,
    {
        assert(found@.take(j + 1).drop_last() =~= found@.take(j as int));
        assert(found@.take(j + 1).last() == found@[j as int]);
        if let Some(f) = &found[j] {
            if let Err(e) = patch_exec_limits(text, j, f) {
                proof {
                    lemma_limits_fail(before, found@, j + 1);
                }
                return Err(e);
            }
        }
        j += 1;
    }
    assert(found@.take(j as int) =~= found@);
    Ok(())
}

/// Write everything a run measured into the file as it stands.
pub fn patch_config(original: &str, measured: &Measured) -> (r: Result<String, PatchError>)
    requires
        measured.gains matches Some(g) ==> g@.len() < u64::MAX,
        measured.limits matches Some(l) ==> l@.len() < u64::MAX,
    ensures
        match with_measured(original@, *measured) {
            Ok(t) => r matches Ok(s) && s@ == t,
            Err(e) => r matches Err(f) && f@ == e,
        },
{
    let mut text: String = original.to_owned();
    if let Some(correction) = &measured.correction {
        if let Err(e) = patch_array(&mut text, "gravity_correction", correction.as_slice()) {
            return Err(e);
        }
        let scale = unit_values();
        if let Err(e) = patch_array(&mut text, "gravity_scale", scale.as_slice()) {
            return Err(e);
        }
    }
    if let Some(friction) = &measured.friction {
        let viscous = choose_values(&friction.measured, &friction.viscous, false);
        if let Err(e) = patch_nested_array(&mut text, "viscous_nm_s", viscous.as_slice()) {
            return Err(e);
        }
        let coulomb = choose_values(&friction.measured, &friction.coulomb, true);
        if let Err(e) = patch_nested_array(&mut text, "coulomb_nm", coulomb.as_slice()) {
            return Err(e);
        }
    }
    if let Some(found) = &measured.gains {
        if let Err(e) = patch_all_gains(&mut text, found) {
            return Err(e);
        }
    }
    if let Some(found) = &measured.limits {
        if let Err(e) = patch_all_limits(&mut text, found) {
            return Err(e);
        }
    }
    Ok(text)
}

/// A run that measured nothing leaves the file as it is.
pub proof fn law_measuring_nothing_changes_nothing(text: Seq<char>, measured: Measured)
    requires
        measured.correction is None,
        measured.friction is None,
        measured.gains matches Some(g) ==> forall|i: int|
            0 <= i < g@.len() ==> (#[trigger] g@[i] matches Some(f) ==> f.kpv is None && f.kiv
                is None),
        measured.limits matches Some(l) ==> forall|i: int|
            0 <= i < l@.len() ==> (#[trigger] l@[i] matches Some(f) ==> !moved_limits(f)),
    ensures
        with_measured(text, measured) == Ok::<Seq<char>, PatchFault>(text),
{
    if let Some(g) = measured.gains {
        lemma_unmoved_gains(text, g@);
    }
    if let Some(l) = measured.limits {
        lemma_unmoved_limits(text, l@);
    }
}

proof fn lemma_unmoved_gains(text: Seq<char>, found: Seq<Option<FoundGains>>)
    requires
        forall|i: int|
            0 <= i < found.len() ==> (#[trigger] found[i] matches Some(f) ==> f.kpv is None && f.kiv
                is None),
    ensures
        with_all_gains(text, found) == Ok::<Seq<char>, PatchFault>(text),
    decreases found.len(),
{
    if found.len() > 0 {
        assert forall|i: int| 0 <= i < found.drop_last().len() implies (
        #[trigger] found.drop_last()[i] matches Some(f) ==> f.kpv is None && f.kiv is None) by {
            assert(found.drop_last()[i] == found[i]);
        }
        lemma_unmoved_gains(text, found.drop_last());
        assert(found.last() == found[found.len() - 1]);
    }
}

proof fn lemma_unmoved_limits(text: Seq<char>, found: Seq<Option<FoundLimits>>)
    requires
        forall|i: int|
            0 <= i < found.len() ==> (#[trigger] found[i] matches Some(f) ==> !moved_limits(f)),
    ensures
        with_all_limits(text, found) == Ok::<Seq<char>, PatchFault>(text),
    decreases found.len(),
{
    if found.len() > 0 {
        assert forall|i: int| 0 <= i < found.drop_last().len() implies (
        #[trigger] found.drop_last()[i] matches Some(f) ==> !moved_limits(f)) by {
            assert(found.drop_last()[i] == found[i]);
        }
        lemma_unmoved_limits(text, found.drop_last());
        assert(found.last() == found[found.len() - 1]);
    }
}

/// Whether the top-level array at `key` lists the items.
pub open spec fn holds_array(text: Seq<char>, key: Seq<char>, items: Seq<Seq<char>>) -> bool {
    top_entry(text, key, 0) matches Some(from) && {
        let open = value_at(text, key, from);
        &&& sets_array(text, key, from)
        &&& stands(text, seq!['['] + listed(items) + seq![']'], open, text.len() as int)
        &&& is_flat(listed(items)) ==> closing(text, open + 1, Lex::Plain, 1) == Some(
            open + 1 + listed(items).len(),
        )
    }
}

/// An array that was written reads back at its key, wherever the file had it, and
/// what closes it is the bracket behind its items.
pub proof fn law_an_array_reads_back(
    text: Seq<char>,
    key: Seq<char>,
    items: Seq<Seq<char>>,
    patched: Seq<char>,
)
    requires
        is_word(key),
        !key.contains('['),
        with_array(text, key, items) == Ok::<Seq<char>, PatchFault>(patched),
    ensures
        holds_array(patched, key, items),
{
    lemma_written(text, key, items, patched);
}

/// Where an array that was written is.
proof fn lemma_written(
    text: Seq<char>,
    key: Seq<char>,
    items: Seq<Seq<char>>,
    patched: Seq<char>,
)
    requires
        is_word(key),
        !key.contains('['),
        with_array(text, key, items) == Ok::<Seq<char>, PatchFault>(patched),
    ensures
        holds_array(patched, key, items),
        ({
            let whole = seq!['['] + listed(items) + seq![']'];
            match top_entry(text, key, 0) {
                Some(from) => {
                    let open = value_at(text, key, from);
                    let close = closing(text, open + 1, Lex::Plain, 1)->0;
                    &&& top_entry(patched, key, 0) == Some(from)
                    &&& value_at(patched, key, from) == open
                    &&& 0 <= open < close < text.len()
                    &&& patched == text.take(open) + whole + text.skip(close + 1)
                },
                None => {
                    let open = key.len() as int + 3;
                    &&& top_entry(patched, key, 0) == Some(0int)
                    &&& value_at(patched, key, 0) == open
                    &&& patched == key + " = "@ + whole + "  # selfcal: measured\n"@ + text
                },
            }
        }),
{
    reveal_strlit(" = ");
    reveal_strlit(" = [");
    reveal_strlit("]  # selfcal: measured\n");
    reveal_strlit("  # selfcal: measured\n");
    let whole = seq!['['] + listed(items) + seq![']'];
    match top_entry(text, key, 0) {
        None => {
            let open = key.len() as int + 3;
            assert("]  # selfcal: measured\n"@ =~= seq![']'] + "  # selfcal: measured\n"@);
            assert(" = ["@ =~= " = "@ + seq!['[']);
            assert(patched =~= key + " = "@ + whole + "  # selfcal: measured\n"@ + text);
            assert forall|k: int| 0 <= k < key.len() implies !is_space(#[trigger] patched[k])
                && patched[k] != '[' && patched[k] == key[k] by {
                assert(patched[k] == key[k]);
                assert(!is_space(key[k]));
                assert(key.contains(key[k]));
            }
            lemma_first_line_found(patched, key);
            assert(patched =~= (key + " = "@) + whole + ("  # selfcal: measured\n"@ + text));
            lemma_stands_whole(patched, key + " = "@, items, "  # selfcal: measured\n"@ + text);
        },
        Some(from) => {
            let open = value_at(text, key, from);
            lemma_closing(text, open + 1, Lex::Plain, 1);
            let close = closing(text, open + 1, Lex::Plain, 1)->0;
            lemma_top_entry(text, key, 0);
            lemma_value_within(text, key, from);
            assert(patched =~= text.take(open) + whole + text.skip(close + 1));
            assert forall|k: int| 0 <= k < open implies text[k] == patched[k] by {}
            assert(patched[open] == '[');
            lemma_array_found(text, patched, key, from);
            lemma_stands_whole(patched, text.take(open), items, text.skip(close + 1));
        },
    }
}

/// Items between their brackets, behind some text and before some.
proof fn lemma_stands_whole(
    text: Seq<char>,
    before: Seq<char>,
    items: Seq<Seq<char>>,
    behind: Seq<char>,
)
    requires
        text == before + (seq!['['] + listed(items) + seq![']']) + behind,
    ensures
        stands(
            text,
            seq!['['] + listed(items) + seq![']'],
            before.len() as int,
            text.len() as int,
        ),
        is_flat(listed(items)) ==> closing(text, before.len() as int + 1, Lex::Plain, 1)
            == Some(before.len() as int + 1 + listed(items).len()),
{
    let whole = seq!['['] + listed(items) + seq![']'];
    let open = before.len() as int;
    let to = open + 1 + listed(items).len();
    assert(text.subrange(open, open + whole.len()) =~= whole);
    assert(text.subrange(open + 1, to) =~= listed(items));
    assert(text[to] == whole[whole.len() - 1]);
    if is_flat(listed(items)) {
        lemma_flat_closes(text, open + 1, to);
    }
}

/// Of two arrays written at a key, the last one stays, as if the first had never
/// been written.
pub proof fn law_the_last_array_wins(
    text: Seq<char>,
    key: Seq<char>,
    first: Seq<Seq<char>>,
    last: Seq<Seq<char>>,
    once: Seq<char>,
)
    requires
        is_word(key),
        !key.contains('['),
        is_flat(listed(first)),
        with_array(text, key, first) == Ok::<Seq<char>, PatchFault>(once),
    ensures
        with_array(once, key, last) == with_array(text, key, last),
{
    reveal_strlit(" = ");
    reveal_strlit(" = [");
    reveal_strlit("]  # selfcal: measured\n");
    reveal_strlit("  # selfcal: measured\n");
    lemma_written(text, key, first, once);
    let direct = with_array(text, key, last);
    let again = with_array(once, key, last);
    assert(direct->Ok_0 =~= again->Ok_0);
}

/// Items are listed in order, with a comma and a blank between two of them.
pub proof fn law_items_are_listed_in_order(items: Seq<Seq<char>>, item: Seq<char>)
    ensures
        listed(Seq::<Seq<char>>::empty()) == Seq::<char>::empty(),
        listed(seq![item]) == item,
        items.len() > 0 ==> listed(items.push(item)) == listed(items) + ", "@ + item,
{
    assert(items.push(item).drop_last() =~= items);
}

/// A value that was measured is written, of the kind asked for, and where none was the
/// file's is.
pub proof fn law_a_skipped_joint_keeps_its_friction(
    measured: Seq<Option<Friction>>,
    kept: Seq<String>,
    i: int,
)
    requires
        0 <= i < measured.len(),
        measured.len() <= kept.len(),
    ensures
        measured_or_kept(measured, kept, true).len() == measured.len(),
        measured_or_kept(measured, kept, false).len() == measured.len(),
        measured[i] matches Some(m) ==> measured_or_kept(measured, kept, true)[i] == m.coulomb@
            && measured_or_kept(measured, kept, false)[i] == m.viscous@,
        measured[i] is None ==> measured_or_kept(measured, kept, true)[i] == kept[i]@
            && measured_or_kept(measured, kept, false)[i] == kept[i]@,
{
}

/// Only the array changes: what stands before its bracket stays, and what stands behind the
/// one that closes it. Where no entry sets the key its line comes first and all of the text
/// behind it. An entry that sets no array, or one that is not closed, is an error.
pub proof fn law_only_the_array_changes(
    text: Seq<char>,
    key: Seq<char>,
    items: Seq<Seq<char>>,
    from: int,
    open: int,
    close: int,
)
    requires
        0 <= open < close < text.len(),
    ensures
        with_array_at(text, key, items, None) == Ok::<Seq<char>, PatchFault>(
            key + " = ["@ + listed(items) + "]  # selfcal: measured\n"@ + text,
        ),
        sets_array(text, key, from) && value_at(text, key, from) == open && closing(
            text,
            open + 1,
            Lex::Plain,
            1,
        ) == Some(close) ==> with_array_at(text, key, items, Some(from)) == Ok::<
            Seq<char>,
            PatchFault,
        >(text.take(open) + seq!['['] + listed(items) + seq![']'] + text.skip(close + 1)),
        sets_array(text, key, from) && closing(
            text,
            value_at(text, key, from) + 1,
            Lex::Plain,
            1,
        ) is None ==> with_array_at(text, key, items, Some(from)) == Err::<Seq<char>, PatchFault>(
            PatchFault::NotClosed { key },
        ),
        !sets_array(text, key, from) ==> with_array_at(text, key, items, Some(from)) == Err::<
            Seq<char>,
            PatchFault,
        >(PatchFault::NotAnArray { key }),
        with_array(text, key, items) == with_array_at(text, key, items, top_entry(text, key, 0)),
        top_entry(text, key, 0) is Some ==> with_nested_array(text, key, items) == with_array(
            text,
            key,
            items,
        ),
        top_entry(text, key, 0) is None ==> with_nested_array(text, key, items)
            == with_array_at(text, key, items, any_entry(text, key, 0)),
{
}

/// A joint's table is changed where it stands: it is the first one of that header behind
/// the line that names the joint and before the next joint, and goes up to the next line
/// that opens a table. All before and behind stays. A joint that no line names, or that
/// has no such table, is an error.
pub proof fn law_a_table_is_changed_where_it_stands(
    text: Seq<char>,
    joint: int,
    header: Seq<char>,
    change: spec_fn(Seq<char>) -> Seq<char>,
    name: int,
    next: int,
    table: int,
    end: int,
)
    requires
        0 <= name <= next <= text.len(),
        0 <= table <= text.len(),
    ensures
        ({
            let n = text.len() as int;
            let called = "name = \"joint"@ + decimal_text((joint + 1) as nat) + seq!['"'];
            let found = line_at(text, called, 0, n);
            let here = found == Some(name) && line_at(text, "[[joints]]"@, name, n) == (if next
                < n {
                Some(next)
            } else {
                None
            });
            let body = table + header.len();
            let result = with_block(text, joint, header, change);
            &&& found is None ==> result == Err::<Seq<char>, PatchFault>(
                PatchFault::NoJoint { joint },
            )
            &&& here && line_at(text, header, name, next) is None ==> result == Err::<
                Seq<char>,
                PatchFault,
            >(PatchFault::NoTable { joint, header })
            &&& here && line_at(text, header, name, next) == Some(table) && first_at(
                text,
                seq!['\n', '['],
                body,
                n,
            ) == Some(end - 1) ==> result == Ok::<Seq<char>, PatchFault>(
                text.take(body) + change(text.subrange(body, end)) + text.skip(end),
            )
            &&& here && line_at(text, header, name, next) == Some(table) && body <= n && first_at(
                text,
                seq!['\n', '['],
                body,
                n,
            ) is None ==> result == Ok::<Seq<char>, PatchFault>(
                text.take(body) + change(text.skip(body)),
            )
        }),
{
    reveal_strlit("name = \"");
    reveal_strlit("joint");
    reveal_strlit("name = \"joint");
    let n = text.len() as int;
    let number = decimal_text((joint + 1) as nat);
    assert("name = \""@ + joint_word(joint) + seq!['"'] =~= "name = \"joint"@ + number + seq!['"'])
        by {
        assert("name = \"joint"@ =~= "name = \""@ + "joint"@);
    }
    let body = table + header.len();
    if body <= n {
        assert(text.subrange(body, n) =~= text.skip(body));
        assert(text.skip(n) =~= Seq::<char>::empty());
        assert(text.take(body) + change(text.subrange(body, n)) + text.skip(n) =~= text.take(body)
            + change(text.skip(body)));
    }
}

/// What was found of a joint's gains is set in its gains table, each under its own key and
/// nothing else; where neither moved the text stays, whatever it holds.
pub proof fn law_what_moved_of_the_gains_is_written(
    text: Seq<char>,
    joint: int,
    found: FoundGains,
    kpv: String,
    kiv: String,
)
    ensures
        ({
            let only_p = |block: Seq<char>| with_value(block, "kpv"@, kpv@);
            let only_i = |block: Seq<char>| with_value(block, "kiv"@, kiv@);
            let both = |block: Seq<char>|
                with_value(with_value(block, "kpv"@, kpv@), "kiv"@, kiv@);
            let table = "[joints.gains]"@;
            let result = with_gains(text, joint, found);
            &&& found.kpv is None && found.kiv is None ==> result == Ok::<Seq<char>, PatchFault>(
                text,
            )
            &&& found.kpv == Some(kpv) && found.kiv is None ==> result == with_block(
                text,
                joint,
                table,
                only_p,
            )
            &&& found.kpv is None && found.kiv == Some(kiv) ==> result == with_block(
                text,
                joint,
                table,
                only_i,
            )
            &&& found.kpv == Some(kpv) && found.kiv == Some(kiv) ==> result == with_block(
                text,
                joint,
                table,
                both,
            )
        }),
{
    let written = |block: Seq<char>|
        with_optional(with_optional(block, "kpv"@, found.kpv), "kiv"@, found.kiv);
    if found.kpv == Some(kpv) && found.kiv is None {
        assert(written =~= |block: Seq<char>| with_value(block, "kpv"@, kpv@));
    }
    if found.kpv is None && found.kiv == Some(kiv) {
        assert(written =~= |block: Seq<char>| with_value(block, "kiv"@, kiv@));
    }
    if found.kpv == Some(kpv) && found.kiv == Some(kiv) {
        assert(written =~= |block: Seq<char>|
            with_value(with_value(block, "kpv"@, kpv@), "kiv"@, kiv@));
    }
}

/// Of the limits that were found, those that moved are set: the velocity, the acceleration,
/// and a jerk only where it was measured. One that was not leaves its line as it is, and
/// where none is set the text stays, whatever it holds.
pub proof fn law_what_moved_of_the_limits_is_written(
    text: Seq<char>,
    joint: int,
    block: Seq<char>,
    found: FoundLimits,
    v: String,
    a: String,
    j: String,
)
    ensures
        ({
            let set_v = with_value(block, "velocity_rad_s"@, v@);
            let set_a = with_value(block, "acceleration_rad_s2"@, a@);
            let set_j = with_value(block, "jerk_rad_s3"@, j@);
            let speed = found.velocity == Some(v);
            let rush = found.acceleration == Some(a);
            let jerks = found.jerk_measured && found.jerk == Some(j);
            let still = !found.jerk_measured || found.jerk is None;
            let new = exec_block(block, found);
            &&& found.velocity is None && found.acceleration is None && still ==> new == block
                && with_exec_limits(text, joint, found) == Ok::<Seq<char>, PatchFault>(text)
            &&& speed && found.acceleration is None && still ==> new == set_v
            &&& found.velocity is None && rush && still ==> new == set_a
            &&& found.velocity is None && found.acceleration is None && jerks ==> new == set_j
            &&& speed && rush && still ==> new == with_value(set_v, "acceleration_rad_s2"@, a@)
            &&& speed && found.acceleration is None && jerks ==> new == with_value(
                set_v,
                "jerk_rad_s3"@,
                j@,
            )
            &&& found.velocity is None && rush && jerks ==> new == with_value(
                set_a,
                "jerk_rad_s3"@,
                j@,
            )
            &&& speed && rush && jerks ==> new == with_value(
                with_value(set_v, "acceleration_rad_s2"@, a@),
                "jerk_rad_s3"@,
                j@,
            )
            &&& speed || rush || jerks ==> with_exec_limits(text, joint, found) == with_block(
                text,
                joint,
                "[joints.limits.exec]"@,
                |b: Seq<char>| exec_block(b, found),
            )
        }),
{
}

/// The joints are written one after another, each with its own number, and those that were
/// not measured are passed over. The first error stays the result.
pub proof fn law_every_joint_is_written_in_turn(
    text: Seq<char>,
    gains: Seq<Option<FoundGains>>,
    limits: Seq<Option<FoundLimits>>,
    gain: Option<FoundGains>,
    limit: Option<FoundLimits>,
)
    ensures
        with_all_gains(text, Seq::empty()) == Ok::<Seq<char>, PatchFault>(text),
        with_all_limits(text, Seq::empty()) == Ok::<Seq<char>, PatchFault>(text),
        with_all_gains(text, gains) matches Err(e) ==> with_all_gains(text, gains.push(gain))
            == Err::<Seq<char>, PatchFault>(e),
        with_all_limits(text, limits) matches Err(e) ==> with_all_limits(text, limits.push(limit))
            == Err::<Seq<char>, PatchFault>(e),
        gain is None ==> with_all_gains(text, gains.push(gain)) == with_all_gains(text, gains),
        limit is None ==> with_all_limits(text, limits.push(limit)) == with_all_limits(
            text,
            limits,
        ),
        with_all_gains(text, gains) is Ok && gain is Some ==> with_all_gains(
            text,
            gains.push(gain),
        ) == with_gains(with_all_gains(text, gains)->Ok_0, gains.len() as int, gain->0),
        with_all_limits(text, limits) is Ok && limit is Some ==> with_all_limits(
            text,
            limits.push(limit),
        ) == with_exec_limits(
            with_all_limits(text, limits)->Ok_0,
            limits.len() as int,
            limit->0,
        ),
{
    assert(gains.push(gain).drop_last() =~= gains);
    assert(limits.push(limit).drop_last() =~= limits);
}

/// A measured correction is written at its key, and every joint's gravity scale goes back
/// to one; a measured friction is written at its two keys; and a file in which all of that
/// can be written holds what was measured of the rest, gains before limits.
pub proof fn law_everything_measured_is_written(
    text: Seq<char>,
    measured: Measured,
    one: Seq<char>,
    two: Seq<char>,
    three: Seq<char>,
    four: Seq<char>,
    five: Seq<char>,
    six: Seq<char>,
)
    requires
        match measured.correction {
            Some(c) => with_array(text, "gravity_correction"@, texts(c@)) == Ok::<
                Seq<char>,
                PatchFault,
            >(one) && with_array(
                one,
                "gravity_scale"@,
                seq!["1.0"@, "1.0"@, "1.0"@, "1.0"@, "1.0"@, "1.0"@],
            ) == Ok::<Seq<char>, PatchFault>(two),
            None => two == text,
        },
        match measured.friction {
            Some(f) => with_nested_array(
                two,
                "viscous_nm_s"@,
                measured_or_kept(f.measured@, f.viscous@, false),
            ) == Ok::<Seq<char>, PatchFault>(three) && with_nested_array(
                three,
                "coulomb_nm"@,
                measured_or_kept(f.measured@, f.coulomb@, true),
            ) == Ok::<Seq<char>, PatchFault>(four),
            None => four == two,
        },
        match measured.gains {
            Some(g) => with_all_gains(four, g@) == Ok::<Seq<char>, PatchFault>(five),
            None => five == four,
        },
        match measured.limits {
            Some(l) => with_all_limits(five, l@) == Ok::<Seq<char>, PatchFault>(six),
            None => six == five,
        },
    ensures
        with_measured(text, measured) == Ok::<Seq<char>, PatchFault>(six),
{
}

/// Why a value could not be written is told of the joint, counted from one, or of the key.
pub proof fn law_a_fault_names_what_is_missing(joint: int, text: Seq<char>)
    requires
        joint >= 0,
    ensures
        ({
            let named = "joint"@ + decimal_text((joint + 1) as nat);
            &&& (PatchFault::NoJoint { joint }).words() == "configuration has no "@ + named
            &&& (PatchFault::NoTable { joint, header: text }).words() == named + " has no "@ + text
                + " table"@
            &&& (PatchFault::NotAnArray { key: text }).words() == text + " is not an array"@
            &&& (PatchFault::NotClosed { key: text }).words() == text + " is not closed"@
        }),
{
}

} // verus!
