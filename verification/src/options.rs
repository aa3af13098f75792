//! What the daemon is told at its start: where its configuration is, and what
//! overrides it.
//!
//! A flag beats its environment variable, which beats the configuration. An
//! override that is not given leaves the configured value in place.
use crate::text::{has_prefix, same};
use vstd::prelude::*;

verus! {

/// How status is sent.
#[derive(Clone, Copy, Debug, PartialEq, Eq, Structural)]
pub enum StatusTransport {
    /// Multicast where it works.
    Auto,
    /// Multicast.
    Multicast,
    /// Unicast.
    Unicast,
}

/// How status is sent, by its name.
pub open spec fn transport_of(name: Seq<char>) -> Option<StatusTransport> {
    if name == "auto"@ {
        Some(StatusTransport::Auto)
    } else if name == "multicast"@ {
        Some(StatusTransport::Multicast)
    } else if name == "unicast"@ {
        Some(StatusTransport::Unicast)
    } else {
        None
    }
}

/// How status is sent, by its name; there are three.
pub fn status_transport(name: &str) -> (r: Option<StatusTransport>)
    ensures
        r == transport_of(name@),
{
    if same(name, "auto") {
        Some(StatusTransport::Auto)
    } else if same(name, "multicast") {
        Some(StatusTransport::Multicast)
    } else if same(name, "unicast") {
        Some(StatusTransport::Unicast)
    } else {
        None
    }
}

/// What was given on the command line or in the environment; `A` is an
/// address.
#[derive(Clone, Debug)]
pub struct Options<A> {
    /// Run the simulator.
    pub sim: bool,
    /// Run the simulator's torque-level plant.
    pub sim_dynamics: bool,
    /// The port commands come to; zero picks a free one.
    pub command_port: Option<u16>,
    /// The address commands come to.
    pub bind: Option<A>,
    /// Where status goes.
    pub status_host: Option<A>,
    /// The port status goes to.
    pub status_port: Option<u16>,
    /// The port telemetry goes to.
    pub telemetry_port: Option<u16>,
    /// How status is sent.
    pub status_transport: Option<StatusTransport>,
    /// How often.
    pub status_rate_hz: Option<u32>,
    /// The process whose end ends the daemon.
    pub parent_pid: Option<u32>,
}

/// Whether a number can be a process to follow.
pub fn valid_parent(pid: u32) -> (r: bool)
    ensures
        r == (pid >= 1),
{
    pid >= 1
}

/// A variable of the environment.
#[derive(Debug)]
pub struct Variable {
    /// Its name.
    pub key: String,
    /// Its value.
    pub value: String,
}

/// Whether a variable is the daemon's and is set to nothing.
pub open spec fn set_to_nothing(v: Variable) -> bool {
    "PAR6_"@.is_prefix_of(v.key@) && v.value@.len() == 0
}

/// The variables to drop, in order.
pub open spec fn empty_keys_of(vars: Seq<Variable>) -> Seq<Seq<char>>
    decreases vars.len(),
{
    if vars.len() == 0 {
        Seq::empty()
    } else {
        let before = empty_keys_of(vars.drop_last());
        if set_to_nothing(vars.last()) {
            before.push(vars.last().key@)
        } else {
            before
        }
    }
}

/// The variables to drop before the options are read, so that those set to
/// nothing count as not set.
pub fn empty_keys(vars: &[Variable]) -> (r: Vec<String>)
    ensures
        r@.map_values(|s: String| s@) == empty_keys_of(vars@),
{
    let mut out: Vec<String> = Vec::new();
    let mut i: usize = 0;
    assert(vars@.take(0) =~= Seq::<Variable>::empty());
    assert(out@.map_values(|s: String| s@) =~= Seq::<Seq<char>>::empty());
    while i < vars.len()
        invariant
            i <= vars@.len(),
            out@.map_values(|s: String| s@) == empty_keys_of(vars@.take(i as int)),
        decreases vars@.len() - i,
    {
        assert(vars@.take(i + 1).drop_last() =~= vars@.take(i as int));
        assert(vars@.take(i + 1).last() == vars@[i as int]);
        let ghost before = out@.map_values(|s: String| s@);
        if has_prefix(vars[i].key.as_str(), "PAR6_") && vars[i].value.as_str().unicode_len() == 0 {
            out.push(vars[i].key.clone());
            assert(out@.map_values(|s: String| s@) =~= before.push(vars@[i as int].key@));
        }
        i += 1;
    }
    assert(vars@.take(i as int) =~= vars@);
    out
}

/// A path below a directory.
pub open spec fn below(dir: Seq<char>, rest: Seq<char>) -> Seq<char> {
    if dir.len() == 0 || dir.last() == '/' {
        dir + rest
    } else {
        dir.push('/') + rest
    }
}

/// A path below a directory.
fn path_below(dir: &str, rest: &str) -> (r: String)
    ensures
        r@ == below(dir@, rest@),
{
    let n: usize = dir.unicode_len();
    let mut out: String = dir.to_owned();
    if n > 0 && dir.get_char(n - 1) != '/' {
        out.push('/');
    }
    out.append(rest);
    out
}

/// Where a configuration is looked for, in order: the environment, the working
/// directory, a checkout around the program, the place it is installed to.
pub open spec fn candidates_of(env: Option<Seq<char>>, program: Option<Seq<char>>) -> Seq<
    Seq<char>,
> {
    (match env {
        Some(p) => seq![p],
        None => Seq::empty(),
    }) + seq!["config/PAR6.toml"@] + (match program {
        Some(dir) => seq![
            below(dir, "../../config/PAR6.toml"@),
            below(dir, "../../../config/PAR6.toml"@),
        ],
        None => Seq::empty(),
    }) + seq!["/etc/par6/PAR6.toml"@]
}

/// What an optional text holds.
pub open spec fn optional(text: Option<&str>) -> Option<Seq<char>> {
    match text {
        Some(t) => Some(t@),
        None => None,
    }
}

/// Where a configuration is looked for, in order. `program` is the directory
/// the program is in.
pub fn config_candidates(env: Option<&str>, program: Option<&str>) -> (r: Vec<String>)
    ensures
        r@.map_values(|s: String| s@) == candidates_of(optional(env), optional(program)),
{
    let mut out: Vec<String> = Vec::new();
    if let Some(p) = env {
        out.push(p.to_owned());
    }
    out.push("config/PAR6.toml".to_owned());
    if let Some(dir) = program {
        out.push(path_below(dir, "../../config/PAR6.toml"));
        out.push(path_below(dir, "../../../config/PAR6.toml"));
    }
    out.push("/etc/par6/PAR6.toml".to_owned());
    assert(out@.map_values(|s: String| s@) =~= candidates_of(optional(env), optional(program)));
    out
}

/// A file that may be the configuration.
#[derive(Debug)]
pub struct Candidate {
    /// Its path.
    pub path: String,
    /// Whether it is there.
    pub exists: bool,
}

/// The first candidate that is there.
pub open spec fn first_there(candidates: Seq<Candidate>, i: int) -> bool {
    &&& 0 <= i < candidates.len()
    &&& candidates[i].exists
    &&& forall|k: int| 0 <= k < i ==> !(#[trigger] candidates[k]).exists
}

/// The paths of some candidates, one after another.
pub open spec fn tried(candidates: Seq<Candidate>) -> Seq<char>
    decreases candidates.len(),
{
    if candidates.len() == 0 {
        Seq::empty()
    } else if candidates.len() == 1 {
        candidates[0].path@
    } else {
        tried(candidates.drop_last()) + ", "@ + candidates.last().path@
    }
}

/// The configuration: the one that was set, or else the first that is there.
/// One that was set and is not there is not looked for elsewhere, and where
/// nothing is found every place tried is named.
pub fn resolve_config_path(explicit: Option<Candidate>, candidates: &Vec<Candidate>) -> (r: Result<
    String,
    String,
>)
    ensures
        match explicit {
            Some(c) => if c.exists {
                r matches Ok(p) && p@ == c.path@
            } else {
                r matches Err(e) && e@ == "config file not found: "@ + c.path@
            },
            None => match r {
                Ok(p) => exists|i: int| #[trigger]
                    first_there(candidates@, i) && p@ == candidates@[i].path@,
                Err(e) => (forall|k: int|
                    0 <= k < candidates@.len() ==> !(#[trigger] candidates@[k]).exists) && e@
                    == "no robot config found; set --config or PAR6_CONFIG (tried: "@ + tried(
                    candidates@,
                ) + ")"@,
            },
        },
{
    if let Some(c) = explicit {
        if c.exists {
            return Ok(c.path);
        }
        let mut out: String = "config file not found: ".to_owned();
        out.append(c.path.as_str());
        return Err(out);
    }
    let mut out: String = "no robot config found; set --config or PAR6_CONFIG (tried: ".to_owned();
    let ghost head = out@;
    let mut i: usize = 0;
    assert(candidates@.take(0) =~= Seq::<Candidate>::empty());
    assert(out@ =~= head + tried(candidates@.take(0)));
    while i < candidates.len()
        invariant
            i <= candidates@.len(),
            explicit is None,
            forall|k: int| 0 <= k < i ==> !(#[trigger] candidates@[k]).exists,
            out@ == head + tried(candidates@.take(i as int)),
        decreases candidates@.len() - i,
    {
        let ghost next = candidates@.take(i + 1);
        assert(next.drop_last() =~= candidates@.take(i as int));
        assert(next.last() == candidates@[i as int]);
        if candidates[i].exists {
            assert(first_there(candidates@, i as int));
            return Ok(candidates[i].path.clone());
        }
        if i > 0 {
            out.append(", ");
        } else {
            assert(tried(candidates@.take(0)) =~= Seq::<char>::empty());
        }
        out.append(candidates[i].path.as_str());
        assert(out@ =~= head + tried(next));
        i += 1;
    }
    assert(candidates@.take(i as int) =~= candidates@);
    out.append(")");
    Err(out)
}

/// The variables that are dropped are the daemon's own that are set to nothing, in
/// order: another program's is left, and so is one that is set to anything.
pub proof fn law_only_own_empty_variables_are_dropped(vars: Seq<Variable>)
    ensures
        empty_keys_of(vars) == vars.filter(
            |v: Variable| "PAR6_"@.is_prefix_of(v.key@) && v.value@.len() == 0,
        ).map_values(|v: Variable| v.key@),
    decreases vars.len(),
{
    reveal(Seq::filter);
    if vars.len() > 0 {
        law_only_own_empty_variables_are_dropped(vars.drop_last());
    }
    assert(empty_keys_of(vars) =~= vars.filter(
        |v: Variable| "PAR6_"@.is_prefix_of(v.key@) && v.value@.len() == 0,
    ).map_values(|v: Variable| v.key@));
}

/// The configuration is looked for where the environment says, then in the working
/// directory, then two and three directories above the program, then in the system's.
pub proof fn law_the_configuration_is_looked_for_in_order(env: Seq<char>, dir: Seq<char>)
    requires
        dir.len() > 0,
        dir.last() != '/',
    ensures
        candidates_of(None, None) == seq!["config/PAR6.toml"@, "/etc/par6/PAR6.toml"@],
        candidates_of(Some(env), None) == seq![
            env,
            "config/PAR6.toml"@,
            "/etc/par6/PAR6.toml"@,
        ],
        candidates_of(None, Some(dir)) == seq![
            "config/PAR6.toml"@,
            dir + seq!['/'] + "../../config/PAR6.toml"@,
            dir + seq!['/'] + "../../../config/PAR6.toml"@,
            "/etc/par6/PAR6.toml"@,
        ],
        candidates_of(Some(env), Some(dir)) == seq![env] + candidates_of(None, Some(dir)),
        candidates_of(None, Some(dir.push('/'))) == candidates_of(None, Some(dir)),
{
    assert(candidates_of(None, None) =~= seq!["config/PAR6.toml"@, "/etc/par6/PAR6.toml"@]);
    assert(candidates_of(Some(env), None) =~= seq![
        env,
        "config/PAR6.toml"@,
        "/etc/par6/PAR6.toml"@,
    ]);
    assert(dir.push('/') =~= dir + seq!['/']);
    assert(candidates_of(None, Some(dir)) =~= seq![
        "config/PAR6.toml"@,
        dir + seq!['/'] + "../../config/PAR6.toml"@,
        dir + seq!['/'] + "../../../config/PAR6.toml"@,
        "/etc/par6/PAR6.toml"@,
    ]);
    assert(candidates_of(Some(env), Some(dir)) =~= seq![env] + candidates_of(None, Some(dir)));
    assert(candidates_of(None, Some(dir.push('/'))) =~= candidates_of(None, Some(dir)));
}

/// What is told as tried names every candidate, in order.
pub proof fn law_every_candidate_is_told(candidates: Seq<Candidate>)
    ensures
        candidates.len() == 0 ==> tried(candidates).len() == 0,
        candidates.len() == 1 ==> tried(candidates) == candidates[0].path@,
        candidates.len() > 1 ==> tried(candidates) == tried(candidates.drop_last()) + ", "@
            + candidates.last().path@,
{
}

/// A way to send status is known by its own name and by no other, and every way has one.
pub proof fn law_every_transport_has_its_name(name: Seq<char>)
    ensures
        transport_of(name) == Some(StatusTransport::Auto) <==> name == "auto"@,
        transport_of(name) == Some(StatusTransport::Multicast) <==> name == "multicast"@,
        transport_of(name) == Some(StatusTransport::Unicast) <==> name == "unicast"@,
        transport_of(name) is None <==> name != "auto"@ && name != "multicast"@ && name
            != "unicast"@,
{
    reveal_strlit("auto");
    reveal_strlit("multicast");
    reveal_strlit("unicast");
    assert("auto"@[0] != "multicast"@[0]);
    assert("auto"@[0] != "unicast"@[0]);
    assert("multicast"@[0] != "unicast"@[0]);
}

/// The first candidate that is there is the one that is there with none there before it;
/// there is one wherever any is there, and no two are.
pub proof fn law_one_candidate_is_the_first_there(candidates: Seq<Candidate>, i: int, k: int)
    requires
        0 <= i < candidates.len(),
        candidates[i].exists,
        forall|j: int| 0 <= j < i ==> !(#[trigger] candidates[j]).exists,
    ensures
        first_there(candidates, k) <==> k == i,
{
    if first_there(candidates, k) && k != i {
        assert(candidates[k].exists);
        if k > i {
            assert(!candidates[i].exists);
        }
    }
}

} // verus!
