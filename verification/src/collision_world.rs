//! Keep-out layer bookkeeping: which shapes each layer applies, and the name
//! that a colliding geometry is reported under.
//!
//! Geometry is named in one vocabulary: link names for the arm,
//! `shape:<name>` for a program keep-out and `install:<name>` for an
//! installation one. A frontend tints by that prefix, so a bare name reads as
//! a link.
use crate::text::{has_prefix, is_digit, joined, same};
use vstd::prelude::*;

verus! {

/// The layer a keep-out shape belongs to.
#[derive(Clone, Copy, Debug, PartialEq, Eq, Structural)]
pub enum ShapeLayer {
    /// Declared by the configuration; stays for the session.
    Installation,
    /// Applied by the running program.
    Program,
}

/// The kinematics model's own name for a layer.
#[derive(Clone, Copy, Debug, PartialEq, Eq, Structural)]
pub enum Layer {
    /// The installation layer.
    Installation,
    /// The program layer.
    Program,
}

/// What the bookkeeping reads of a keep-out shape.
#[derive(Debug)]
pub struct Shape {
    /// The geometry name.
    pub name: String,
    /// Whether the shape enters the collision world; a shape that does not is
    /// drawn only.
    pub collision: bool,
}

/// The reporting prefix of an installation keep-out.
pub open spec fn install_prefix() -> Seq<char> {
    "install:"@
}

/// The reporting prefix of a program keep-out.
pub open spec fn shape_prefix() -> Seq<char> {
    "shape:"@
}

/// Whether a reporting name denotes a keep-out rather than robot geometry.
pub open spec fn world_name(name: Seq<char>) -> bool {
    shape_prefix().is_prefix_of(name) || install_prefix().is_prefix_of(name)
}

/// Whether `name` is a link name followed at `i` by an underscore and an index.
pub open spec fn indexed_at(name: Seq<char>, i: int) -> bool {
    &&& 0 <= i < name.len() - 1
    &&& name[i] == '_'
    &&& forall|j: int| i < j < name.len() ==> is_digit(#[trigger] name[j])
}

/// The link a robot geometry belongs to: its name without the index.
pub open spec fn link_name(name: Seq<char>) -> Seq<char> {
    if exists|i: int| indexed_at(name, i) {
        name.take(choose|i: int| indexed_at(name, i))
    } else {
        name
    }
}

/// The names of the colliding shapes, in order.
pub open spec fn colliding_names(shapes: Seq<Shape>) -> Seq<Seq<char>>
    decreases shapes.len(),
{
    if shapes.len() == 0 {
        Seq::empty()
    } else {
        let rest = colliding_names(shapes.drop_last());
        if shapes.last().collision {
            rest.push(shapes.last().name@)
        } else {
            rest
        }
    }
}

/// Whether the name at `i` already occurs before it.
pub open spec fn repeats(shapes: Seq<Shape>, i: int) -> bool {
    exists|k: int| 0 <= k < i && (#[trigger] shapes[k]).name@ == shapes[i].name@
}

/// The kinematics layer a wire layer applies to.
pub fn kin_layer(layer: ShapeLayer) -> (r: Layer)
    ensures
        layer == ShapeLayer::Installation <==> r == Layer::Installation,
        layer == ShapeLayer::Program <==> r == Layer::Program,
{
    match layer {
        ShapeLayer::Installation => Layer::Installation,
        ShapeLayer::Program => Layer::Program,
    }
}

/// Whether a reporting name denotes a keep-out shape rather than robot
/// geometry: the prefix is what the vocabulary exists to carry.
pub fn is_world_name(name: &str) -> (b: bool)
    ensures
        b == world_name(name@),
{
    has_prefix(name, "shape:") || has_prefix(name, "install:")
}

/// The first name two shapes in one layer share, if any. A duplicate makes a
/// colliding-pair report ambiguous about which shape it means.
pub fn first_duplicate(shapes: &[Shape]) -> (r: Option<&str>)
    ensures
        r is None <==> forall|i: int| 0 <= i < shapes@.len() ==> !repeats(shapes@, i),
        r matches Some(name) ==> exists|i: int|
            #![trigger repeats(shapes@, i)]
            0 <= i < shapes@.len() && repeats(shapes@, i) && name@ == shapes@[i].name@ && forall|
                j: int,
            |
                0 <= j < i ==> !repeats(shapes@, j),
{
    let mut i: usize = 0;
    while i < shapes.len()
        invariant
            i <= shapes@.len(),
            forall|j: int| 0 <= j < i ==> !repeats(shapes@, j),
        decreases shapes@.len() - i,
    {
        let mut k: usize = 0;
        while k < i
            invariant
                k <= i < shapes@.len(),
                forall|m: int| 0 <= m < k ==> (#[trigger] shapes@[m]).name@ != shapes@[i as int].name@,
                forall|j: int| 0 <= j < i ==> !repeats(shapes@, j),
            decreases i - k,
        {
            if same(shapes[k].name.as_str(), shapes[i].name.as_str()) {
                assert(repeats(shapes@, i as int));
                return Some(shapes[i].name.as_str());
            }
            k += 1;
        }
        assert(!repeats(shapes@, i as int));
        i += 1;
    }
    None
}

/// The link name of a robot geometry: the name without the index the model
/// appends to it (`upper_arm_0` is geometry of `upper_arm`).
pub fn link_of(geom: &str) -> (r: &str)
    ensures
        r@ == link_name(geom@),
{
    let n: usize = geom.unicode_len();
    let mut i: usize = n;
    while i > 0
        invariant
            i <= n,
            n == geom@.len(),
            forall|j: int| i <= j < n ==> is_digit(#[trigger] geom@[j]),
        decreases i,
    {
        let c = geom.get_char(i - 1);
        if '0' <= c && c <= '9' {
            i -= 1;
        } else if c == '_' && i < n {
            let ghost cut = i - 1;
            assert(indexed_at(geom@, cut));
            assert forall|k: int| indexed_at(geom@, k) implies k == cut by {
                if k < cut {
                    assert(is_digit(geom@[cut]));
                } else if k > cut {
                    assert(is_digit(geom@[k]));
                }
            }
            assert(geom@.subrange(0, cut) =~= geom@.take(cut));
            return geom.substring_char(0, i - 1);
        } else {
            assert forall|k: int| !indexed_at(geom@, k) by {
                if indexed_at(geom@, k) {
                    if k < i - 1 {
                        assert(is_digit(geom@[i - 1]));
                    } else if k > i - 1 {
                        assert(is_digit(geom@[k]));
                    }
                }
            }
            return geom;
        }
    }
    assert forall|k: int| !indexed_at(geom@, k) by {
        if indexed_at(geom@, k) {
            assert(is_digit(geom@[k]));
        }
    }
    geom
}

/// One applied keep-out: its geometry name and the name it is reported under.
#[derive(Debug)]
struct Applied {
    name: String,
    reported: String,
}

/// The geometry names of a list of applied keep-outs.
spec fn names_of(entries: Seq<Applied>) -> Seq<Seq<char>> {
    entries.map_values(|e: Applied| e.name@)
}

/// Whether every entry is reported under `prefix` and its own name.
spec fn reported_under(entries: Seq<Applied>, prefix: Seq<char>) -> bool {
    forall|i: int|
        0 <= i < entries.len() ==> (#[trigger] entries[i]).reported@ == prefix + entries[i].name@
}

/// The index of the entry called `geom`, if there is one.
fn find(entries: &Vec<Applied>, geom: &str) -> (r: Option<usize>)
    ensures
        r is None <==> !names_of(entries@).contains(geom@),
        r matches Some(i) ==> i < entries@.len() && entries@[i as int].name@ == geom@,
{
    let mut i: usize = 0;
    while i < entries.len()
        invariant
            i <= entries@.len(),
            forall|j: int| 0 <= j < i ==> (#[trigger] entries@[j]).name@ != geom@,
        decreases entries@.len() - i,
    {
        if same(entries[i].name.as_str(), geom) {
            assert(names_of(entries@)[i as int] == geom@);
            return Some(i);
        }
        i += 1;
    }
    assert forall|j: int| 0 <= j < names_of(entries@).len() implies names_of(entries@)[j] != geom@ by {
        assert(entries@[j].name@ != geom@);
    }
    None
}

/// The colliding shapes of one layer, each with its reporting name.
fn applied(shapes: &[Shape], prefix: &str) -> (r: Vec<Applied>)
    ensures
        names_of(r@) == colliding_names(shapes@),
        reported_under(r@, prefix@),
{
    let mut out: Vec<Applied> = Vec::new();
    let mut i: usize = 0;
    assert(shapes@.take(0) =~= Seq::<Shape>::empty());
    assert(names_of(out@) =~= colliding_names(shapes@.take(0)));
    while i < shapes.len()
        invariant
            i <= shapes@.len(),
            names_of(out@) == colliding_names(shapes@.take(i as int)),
            reported_under(out@, prefix@),
        decreases shapes@.len() - i,
    {
        let ghost before = out@;
        assert(shapes@.take(i + 1).drop_last() =~= shapes@.take(i as int));
        if shapes[i].collision {
            let name = shapes[i].name.clone();
            let reported = joined(prefix, name.as_str());
            out.push(Applied { name, reported });
            assert(names_of(out@) =~= names_of(before).push(shapes@[i as int].name@));
        }
        i += 1;
    }
    assert(shapes@.take(i as int) =~= shapes@);
    out
}

/// What the two layers apply: their geometry names, in order.
#[verifier::ext_equal]
pub struct Names {
    /// The installation layer.
    pub installation: Seq<Seq<char>>,
    /// The program layer.
    pub program: Seq<Seq<char>>,
}

impl Names {
    /// The names one layer applies.
    pub open spec fn layer(self, layer: ShapeLayer) -> Seq<Seq<char>> {
        match layer {
            ShapeLayer::Installation => self.installation,
            ShapeLayer::Program => self.program,
        }
    }

    /// The name a geometry is reported under. A keep-out takes its layer's
    /// prefix, and the installation layer comes first; other geometry is
    /// robot geometry and takes its link's name.
    pub open spec fn reported(self, geom: Seq<char>) -> Seq<char> {
        if self.installation.contains(geom) {
            install_prefix() + geom
        } else if self.program.contains(geom) {
            shape_prefix() + geom
        } else {
            link_name(geom)
        }
    }
}

/// Applied keep-out names per layer, and the reporting name each one renders
/// as. Reporting names are built once per layer replacement, not per query.
#[derive(Debug)]
pub struct ShapeNames {
    installation: Vec<Applied>,
    program: Vec<Applied>,
}

impl View for ShapeNames {
    type V = Names;

    closed spec fn view(&self) -> Names {
        Names { installation: names_of(self.installation@), program: names_of(self.program@) }
    }
}

impl Default for ShapeNames {
    fn default() -> (r: ShapeNames)
        ensures
            r@.installation.len() == 0,
            r@.program.len() == 0,
    {
        ShapeNames { installation: Vec::new(), program: Vec::new() }
    }
}

impl ShapeNames {
    #[verifier::type_invariant]
    spec fn reports_by_layer(self) -> bool {
        &&& reported_under(self.installation@, install_prefix())
        &&& reported_under(self.program@, shape_prefix())
    }

    /// Record the names of one applied layer, replacing what it held. Shapes
    /// that do not collide never appear in a pair, so they are not recorded.
    pub fn set_layer(&mut self, layer: ShapeLayer, shapes: &[Shape])
        ensures
            final(self)@.layer(layer) == colliding_names(shapes@),
            layer == ShapeLayer::Installation ==> final(self)@.program == old(self)@.program,
            layer == ShapeLayer::Program ==> final(self)@.installation == old(self)@.installation,
    {
        proof {
            use_type_invariant(&*self);
        }
        match layer {
            ShapeLayer::Installation => {
                self.installation = applied(shapes, "install:");
            },
            ShapeLayer::Program => {
                self.program = applied(shapes, "shape:");
            },
        }
    }

    /// The first colliding name in `shapes` that the other layer already
    /// applies. A name both layers share would always be reported with the
    /// installation prefix, whichever shape was hit.
    pub fn first_shared_with_other_layer(&self, layer: ShapeLayer, shapes: &[Shape]) -> (r: Option<
        String,
    >)
        ensures
            ({
                let other = match layer {
                    ShapeLayer::Installation => self@.program,
                    ShapeLayer::Program => self@.installation,
                };
                let asked = colliding_names(shapes@);
                &&& r is None <==> forall|i: int|
                    0 <= i < asked.len() ==> !other.contains(#[trigger] asked[i])
                &&& r matches Some(name) ==> exists|i: int|
                    #![trigger asked[i]]
                    0 <= i < asked.len() && name@ == asked[i] && other.contains(asked[i])
                        && forall|j: int| 0 <= j < i ==> !other.contains(#[trigger] asked[j])
            }),
    {
        let other = match layer {
            ShapeLayer::Installation => &self.program,
            ShapeLayer::Program => &self.installation,
        };
        let ghost asked = colliding_names(shapes@);
        let mut i: usize = 0;
        while i < shapes.len()
            invariant
                i <= shapes@.len(),
                asked == colliding_names(shapes@),
                names_of(other@) == (match layer {
                    ShapeLayer::Installation => self@.program,
                    ShapeLayer::Program => self@.installation,
                }),
                forall|j: int|
                    0 <= j < colliding_names(shapes@.take(i as int)).len() ==> !names_of(
                        other@,
                    ).contains(#[trigger] colliding_names(shapes@.take(i as int))[j]),
            decreases shapes@.len() - i,
        {
            proof {
                assert(shapes@.take(i + 1).drop_last() =~= shapes@.take(i as int));
                lemma_colliding_prefix(shapes@, i + 1);
            }
            if shapes[i].collision {
                let found = find(other, shapes[i].name.as_str());
                if found.is_some() {
                    let ghost k = colliding_names(shapes@.take(i as int)).len() as int;
                    assert(colliding_names(shapes@.take(i + 1))[k] == shapes@[i as int].name@);
                    assert(asked[k] == shapes@[i as int].name@);
                    assert forall|j: int| 0 <= j < k implies !names_of(other@).contains(
                        #[trigger] asked[j],
                    ) by {
                        assert(colliding_names(shapes@.take(i as int))[j] == asked[j]) by {
                            lemma_colliding_prefix(shapes@, i as int);
                        }
                    }
                    return Some(shapes[i].name.clone());
                }
            }
            i += 1;
        }
        assert(shapes@.take(i as int) =~= shapes@);
        None
    }

    /// The reporting name of one colliding geometry: a keep-out takes its
    /// layer prefix, robot geometry drops the per-link index.
    pub fn display<'a>(&'a self, geom: &'a str) -> (r: &'a str)
        ensures
            r@ == self@.reported(geom@),
    {
        proof {
            use_type_invariant(self);
        }
        if let Some(i) = find(&self.installation, geom) {
            return self.installation[i].reported.as_str();
        }
        if let Some(i) = find(&self.program, geom) {
            return self.program[i].reported.as_str();
        }
        link_of(geom)
    }

    /// The reporting name, owned, for pair lists that outlive the report.
    pub fn display_owned(&self, geom: &str) -> (r: String)
        ensures
            r@ == self@.reported(geom@),
    {
        self.display(geom).to_owned()
    }

    /// A whole report's pairs, in reporting names.
    pub fn render(&self, pairs: &[(String, String)]) -> (r: Vec<(String, String)>)
        ensures
            r@.len() == pairs@.len(),
            forall|i: int|
                0 <= i < pairs@.len() ==> (#[trigger] r@[i]).0@ == self@.reported(pairs@[i].0@)
                    && r@[i].1@ == self@.reported(pairs@[i].1@),
    {
        let mut out: Vec<(String, String)> = Vec::new();
        let mut i: usize = 0;
        while i < pairs.len()
            invariant
                i <= pairs@.len(),
                out@.len() == i,
                forall|k: int|
                    0 <= k < i ==> (#[trigger] out@[k]).0@ == self@.reported(pairs@[k].0@)
                        && out@[k].1@ == self@.reported(pairs@[k].1@),
            decreases pairs@.len() - i,
        {
            let a = self.display_owned(pairs[i].0.as_str());
            let b = self.display_owned(pairs[i].1.as_str());
            out.push((a, b));
            i += 1;
        }
        out
    }
}

/// Every applied keep-out is reported under a name that reads as one.
pub proof fn law_keep_outs_read_as_world(names: Names, geom: Seq<char>)
    requires
        names.installation.contains(geom) || names.program.contains(geom),
    ensures
        world_name(names.reported(geom)),
{
    assert((install_prefix() + geom).take(install_prefix().len() as int) =~= install_prefix());
    assert((shape_prefix() + geom).take(shape_prefix().len() as int) =~= shape_prefix());
}

/// Geometry that no layer applies reads as a link: its reported name carries a
/// keep-out prefix only if its own name does.
pub proof fn law_robot_geometry_reads_as_a_link(names: Names, geom: Seq<char>)
    requires
        !names.installation.contains(geom),
        !names.program.contains(geom),
        !world_name(geom),
    ensures
        !world_name(names.reported(geom)),
{
    let link = link_name(geom);
    assert(link.is_prefix_of(geom)) by {
        if exists|i: int| indexed_at(geom, i) {
            let i = choose|i: int| indexed_at(geom, i);
            assert(geom.take(i) =~= geom.subrange(0, i));
        } else {
            assert(geom.subrange(0, geom.len() as int) =~= geom);
        }
    }
    if shape_prefix().is_prefix_of(link) {
        assert(shape_prefix() =~= geom.subrange(0, shape_prefix().len() as int));
    }
    if install_prefix().is_prefix_of(link) {
        assert(install_prefix() =~= geom.subrange(0, install_prefix().len() as int));
    }
}

/// With no name shared between the layers, a report says which layer was hit:
/// a program keep-out is reported with the program prefix.
pub proof fn law_unshared_names_report_their_layer(names: Names, geom: Seq<char>)
    requires
        names.program.contains(geom),
        !names.installation.contains(geom),
    ensures
        names.reported(geom) == shape_prefix() + geom,
        !install_prefix().is_prefix_of(names.reported(geom)),
{
    let shown = names.reported(geom);
    reveal_strlit("install:");
    reveal_strlit("shape:");
    assert(shown[0] == 's');
    if install_prefix().is_prefix_of(shown) {
        assert(shown.subrange(0, 8)[0] == install_prefix()[0]);
    }
}

/// Two different applied keep-outs are never reported under one name.
pub proof fn law_reports_tell_keep_outs_apart(names: Names, a: Seq<char>, b: Seq<char>)
    requires
        names.installation.contains(a) || names.program.contains(a),
        names.installation.contains(b) || names.program.contains(b),
        a != b,
    ensures
        names.reported(a) != names.reported(b),
{
    reveal_strlit("install:");
    reveal_strlit("shape:");
    let (ra, rb) = (names.reported(a), names.reported(b));
    if ra == rb {
        assert(ra[0] == rb[0]);
        if names.installation.contains(a) {
            assert(ra.skip(8) =~= a);
            assert(rb.skip(8) =~= b);
        } else {
            assert(ra.skip(6) =~= a);
            assert(rb.skip(6) =~= b);
        }
    }
}

/// The names a layer applies are those of its shapes that collide, in order.
pub proof fn law_a_layer_applies_what_collides(shapes: Seq<Shape>)
    ensures
        colliding_names(shapes) == shapes.filter(|s: Shape| s.collision).map_values(
            |s: Shape| s.name@,
        ),
    decreases shapes.len(),
{
    reveal(Seq::filter);
    let picked = shapes.filter(|s: Shape| s.collision);
    if shapes.len() > 0 {
        law_a_layer_applies_what_collides(shapes.drop_last());
    }
    assert(colliding_names(shapes) =~= picked.map_values(|s: Shape| s.name@));
}

/// A keep-out is reported under its layer and its own name, the installation first.
pub proof fn law_a_keep_out_reports_its_layer_and_name(names: Names, geom: Seq<char>)
    ensures
        names.installation.contains(geom) ==> names.reported(geom) == "install:"@ + geom,
        !names.installation.contains(geom) && names.program.contains(geom) ==> names.reported(geom)
            == "shape:"@ + geom,
{
}

/// Robot geometry is reported as its link: an index behind an underscore is left out,
/// once, and a name without one is reported as it is.
pub proof fn law_geometry_reports_its_link(
    names: Names,
    link: Seq<char>,
    index: Seq<char>,
    other: Seq<char>,
)
    requires
        index.len() > 0,
        forall|k: int| 0 <= k < index.len() ==> '0' <= #[trigger] index[k] <= '9',
        !names.installation.contains(link + seq!['_'] + index),
        !names.program.contains(link + seq!['_'] + index),
        !names.installation.contains(other),
        !names.program.contains(other),
        forall|a: Seq<char>, b: Seq<char>|
            other == #[trigger] (a + seq!['_'] + b) ==> b.len() == 0 || exists|k: int|
                0 <= k < b.len() && !('0' <= #[trigger] b[k] <= '9'),
    ensures
        names.reported(link + seq!['_'] + index) == link,
        names.reported(other) == other,
{
    let geom = link + seq!['_'] + index;
    let at = link.len() as int;
    assert(indexed_at(geom, at)) by {
        assert forall|j: int| at < j < geom.len() implies is_digit(#[trigger] geom[j]) by {
            assert(geom[j] == index[j - at - 1]);
        }
    }
    let i = choose|i: int| indexed_at(geom, i);
    if i < at {
        assert(is_digit(geom[at]));
    } else if i > at {
        assert(is_digit(geom[i]));
    }
    assert(geom.take(at) =~= link);
    if exists|i: int| indexed_at(other, i) {
        let i = choose|i: int| indexed_at(other, i);
        let (a, b) = (other.take(i), other.skip(i + 1));
        assert(other =~= a + seq!['_'] + b);
        let k = choose|k: int| 0 <= k < b.len() && !('0' <= #[trigger] b[k] <= '9');
        assert(is_digit(other[i + 1 + k]));
    }
}

/// A name is a duplicate exactly where a shape before it has it, colliding or not.
pub proof fn law_a_name_repeats_where_a_shape_before_has_it(shapes: Seq<Shape>, i: int, k: int)
    requires
        0 <= k < i < shapes.len(),
    ensures
        shapes[k].name@ == shapes[i].name@ ==> repeats(shapes, i),
        (forall|j: int| 0 <= j < i ==> (#[trigger] shapes[j]).name@ != shapes[i].name@)
            ==> !repeats(shapes, i),
{
}

/// The names collected from a prefix of the shapes are a prefix of the names
/// collected from all of them.
proof fn lemma_colliding_prefix(shapes: Seq<Shape>, n: int)
    requires
        0 <= n <= shapes.len(),
    ensures
        colliding_names(shapes.take(n)).is_prefix_of(colliding_names(shapes)),
    decreases shapes.len(),
{
    if n == shapes.len() {
        assert(shapes.take(n) =~= shapes);
    } else {
        lemma_colliding_prefix(shapes.drop_last(), n);
        assert(shapes.drop_last().take(n) =~= shapes.take(n));
    }
}

} // verus!
