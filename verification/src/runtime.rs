//! The runtime's modes, and the errors it answers a client with.
use crate::gate::{pairs_view, PairView};
use crate::text::joined;
use vstd::prelude::*;

verus! {

/// The mode the realtime core is in.
#[derive(Clone, Copy, Debug, PartialEq, Eq, Structural)]
pub enum Mode {
    /// Starting up; nothing is commanded.
    Booting,
    /// Held against gravity; no motion is commanded.
    Idle,
    /// A hard error is latched.
    ActiveError,
    /// Finding the home reference.
    Homing,
    /// Ramping to a commanded joint velocity.
    Jog,
    /// Tracking streamed setpoints.
    Stream,
    /// Playing planned samples.
    Exec,
    /// Following a hand.
    HandGuiding,
    /// Behaving as a spring.
    Impedance,
    /// Stopped by a safety function.
    SafetyStop,
    /// The bus is granted to a firmware flasher.
    Flashing,
}

impl Mode {
    /// The mode's name as its definition spells it.
    pub open spec fn spelled(self) -> Seq<char> {
        match self {
            Mode::Booting => "Booting"@,
            Mode::Idle => "Idle"@,
            Mode::ActiveError => "ActiveError"@,
            Mode::Homing => "Homing"@,
            Mode::Jog => "Jog"@,
            Mode::Stream => "Stream"@,
            Mode::Exec => "Exec"@,
            Mode::HandGuiding => "HandGuiding"@,
            Mode::Impedance => "Impedance"@,
            Mode::SafetyStop => "SafetyStop"@,
            Mode::Flashing => "Flashing"@,
        }
    }

    /// The mode's name as its definition spells it.
    pub fn spelling(&self) -> (r: &'static str)
        ensures
            r@ == self.spelled(),
    {
        match *self {
            Mode::Booting => "Booting",
            Mode::Idle => "Idle",
            Mode::ActiveError => "ActiveError",
            Mode::Homing => "Homing",
            Mode::Jog => "Jog",
            Mode::Stream => "Stream",
            Mode::Exec => "Exec",
            Mode::HandGuiding => "HandGuiding",
            Mode::Impedance => "Impedance",
            Mode::SafetyStop => "SafetyStop",
            Mode::Flashing => "Flashing",
        }
    }
}

/// The catalogue entry an error belongs to.
#[derive(Clone, Copy, Debug, PartialEq, Eq, Structural)]
pub enum ErrorCode {
    /// The motion would collide.
    SysSelfCollision,
    /// The request could not be carried out as it was put.
    CommValidationError,
    /// The e-stop is engaged.
    SysEstopActive,
    /// The controller stayed disabled.
    SysControllerDisabled,
    /// The motion stack could not be set up.
    MotnSetupFailed,
}

/// Why a client's request was not carried out.
#[derive(Debug)]
pub enum Refusal {
    /// The motion would collide in these pairs, as they are rendered.
    SelfCollision {
        /// The first few pairs.
        pairs: String,
    },
    /// The collision world could not be queried.
    GateFailed {
        /// What the model said.
        detail: String,
    },
    /// A shape could not be read.
    InvalidShapes {
        /// What is wrong with it.
        detail: String,
    },
    /// An e-stop overtook the request.
    EstopActive,
    /// The enable window closed with the controller still disabled.
    ControllerDisabled,
    /// A mode request ran out of time.
    ModeStayed {
        /// The mode that was asked for.
        want: Mode,
        /// The mode the core stayed in.
        mode: Mode,
    },
    /// The bus could not be opened.
    BusRefused {
        /// The interface that was asked for.
        interface: String,
        /// What the opener said.
        cause: String,
    },
}

/// What a refusal says.
pub enum RefusalView {
    /// See [`Refusal::SelfCollision`].
    SelfCollision { pairs: Seq<char> },
    /// See [`Refusal::GateFailed`].
    GateFailed { detail: Seq<char> },
    /// See [`Refusal::InvalidShapes`].
    InvalidShapes { detail: Seq<char> },
    /// See [`Refusal::EstopActive`].
    EstopActive,
    /// See [`Refusal::ControllerDisabled`].
    ControllerDisabled,
    /// See [`Refusal::ModeStayed`].
    ModeStayed { want: Mode, mode: Mode },
    /// See [`Refusal::BusRefused`].
    BusRefused { interface: Seq<char>, cause: Seq<char> },
}

impl View for Refusal {
    type V = RefusalView;

    open spec fn view(&self) -> RefusalView {
        match *self {
            Refusal::SelfCollision { pairs } => RefusalView::SelfCollision { pairs: pairs@ },
            Refusal::GateFailed { detail } => RefusalView::GateFailed { detail: detail@ },
            Refusal::InvalidShapes { detail } => RefusalView::InvalidShapes { detail: detail@ },
            Refusal::EstopActive => RefusalView::EstopActive,
            Refusal::ControllerDisabled => RefusalView::ControllerDisabled,
            Refusal::ModeStayed { want, mode } => RefusalView::ModeStayed { want, mode },
            Refusal::BusRefused { interface, cause } => RefusalView::BusRefused {
                interface: interface@,
                cause: cause@,
            },
        }
    }
}

impl RefusalView {
    /// The catalogue entry.
    pub open spec fn code(self) -> ErrorCode {
        match self {
            RefusalView::SelfCollision { pairs } => ErrorCode::SysSelfCollision,
            RefusalView::GateFailed { detail } => ErrorCode::CommValidationError,
            RefusalView::InvalidShapes { detail } => ErrorCode::CommValidationError,
            RefusalView::EstopActive => ErrorCode::SysEstopActive,
            RefusalView::ControllerDisabled => ErrorCode::SysControllerDisabled,
            RefusalView::ModeStayed { want, mode } => ErrorCode::CommValidationError,
            RefusalView::BusRefused { interface, cause } => ErrorCode::MotnSetupFailed,
        }
    }

    /// The text that fills the catalogue entry: the pairs of a collision, the
    /// detail of everything else.
    pub open spec fn detail(self) -> Seq<char> {
        match self {
            RefusalView::SelfCollision { pairs } => pairs,
            RefusalView::GateFailed { detail } => "stream gate collision world: "@ + detail,
            RefusalView::InvalidShapes { detail } => detail,
            RefusalView::EstopActive => Seq::empty(),
            RefusalView::ControllerDisabled =>
                "The RT core refused to enable: the e-stop line is engaged or a hard error is latched."@,
            RefusalView::ModeStayed { want, mode } => "the controller mode stayed "@
                + mode.spelled() + (if want == Mode::Flashing {
                ": FLASHING is reachable only from IDLE and ACTIVE_ERROR"@
            } else {
                " instead of returning to IDLE"@
            }),
            RefusalView::BusRefused { interface, cause } => "cannot open '"@ + interface + "': "@
                + cause,
        }
    }
}

impl Refusal {
    /// The catalogue entry this refusal is reported under.
    pub fn code(&self) -> (r: ErrorCode)
        ensures
            r == self@.code(),
    {
        match self {
            Refusal::SelfCollision { pairs: _ } => ErrorCode::SysSelfCollision,
            Refusal::GateFailed { detail: _ } => ErrorCode::CommValidationError,
            Refusal::InvalidShapes { detail: _ } => ErrorCode::CommValidationError,
            Refusal::EstopActive => ErrorCode::SysEstopActive,
            Refusal::ControllerDisabled => ErrorCode::SysControllerDisabled,
            Refusal::ModeStayed { want: _, mode: _ } => ErrorCode::CommValidationError,
            Refusal::BusRefused { interface: _, cause: _ } => ErrorCode::MotnSetupFailed,
        }
    }

    /// The text that fills the catalogue entry.
    pub fn detail(&self) -> (r: String)
        ensures
            r@ == self@.detail(),
    {
        match self {
            Refusal::SelfCollision { pairs } => pairs.clone(),
            Refusal::GateFailed { detail } => joined(
                "stream gate collision world: ",
                detail.as_str(),
            ),
            Refusal::InvalidShapes { detail } => detail.clone(),
            Refusal::EstopActive => String::new(),
            Refusal::ControllerDisabled =>
                "The RT core refused to enable: the e-stop line is engaged or a hard error is latched.".to_owned(),
            Refusal::ModeStayed { want, mode } => {
                let mut out = joined("the controller mode stayed ", mode.spelling());
                if *want == Mode::Flashing {
                    out.append(": FLASHING is reachable only from IDLE and ACTIVE_ERROR");
                } else {
                    out.append(" instead of returning to IDLE");
                }
                out
            },
            Refusal::BusRefused { interface, cause } => {
                let mut out = joined("cannot open '", interface.as_str());
                out.append("': ");
                out.append(cause.as_str());
                out
            },
        }
    }
}

/// Pairs a refusal names before it leaves the rest out.
pub const SHOWN_PAIRS: usize = 4;

/// One pair as a refusal shows it.
pub open spec fn shown_pair(p: PairView) -> Seq<char> {
    "["@ + p.0 + ", "@ + p.1 + "]"@
}

/// The pairs of a list as a refusal shows them, one after the other.
pub open spec fn shown_pairs(pairs: Seq<PairView>) -> Seq<char>
    decreases pairs.len(),
{
    if pairs.len() == 0 {
        Seq::empty()
    } else if pairs.len() == 1 {
        shown_pair(pairs[0])
    } else {
        shown_pairs(pairs.drop_last()) + ", "@ + shown_pair(pairs.last())
    }
}

/// What a refusal says of a list of pairs: its first few, in order.
pub open spec fn rendered(pairs: Seq<PairView>) -> Seq<char> {
    shown_pairs(
        pairs.take(
            if pairs.len() < SHOWN_PAIRS {
                pairs.len() as int
            } else {
                SHOWN_PAIRS as int
            },
        ),
    )
}

/// What a refusal says of a list of pairs.
pub fn render_pairs(pairs: &Vec<(String, String)>) -> (r: String)
    ensures
        r@ == rendered(pairs_view(pairs@)),
{
    let n: usize = if pairs.len() < SHOWN_PAIRS {
        pairs.len()
    } else {
        SHOWN_PAIRS
    };
    let ghost pv = pairs_view(pairs@);
    let mut out: String = String::new();
    let mut i: usize = 0;
    assert(out@ =~= shown_pairs(pv.take(0)));
    while i < n
        invariant
            i <= n <= pairs@.len(),
            pv == pairs_view(pairs@),
            out@ == shown_pairs(pv.take(i as int)),
        decreases n - i,
    {
        let ghost before = out@;
        if i > 0 {
            out.append(", ");
        }
        let ghost lead = out@;
        out.append("[");
        out.append(pairs[i].0.as_str());
        out.append(", ");
        out.append(pairs[i].1.as_str());
        out.append("]");
        proof {
            assert(out@ =~= lead + shown_pair(pv[i as int]));
            assert(pv.take(i + 1).drop_last() =~= pv.take(i as int));
            assert(pv.take(i + 1).last() == pv[i as int]);
            if i == 0 {
                assert(before.len() == 0);
                assert(lead + shown_pair(pv[0]) =~= shown_pair(pv[0]));
            } else {
                assert(out@ =~= before + ", "@ + shown_pair(pv[i as int]));
            }
        }
        i += 1;
    }
    out
}

/// The pairs the last refused or stopped stream would have collided in.
#[derive(Debug)]
pub struct CollisionState {
    /// Whether a refusal stands.
    pub active: bool,
    /// Its pairs.
    pub pairs: Vec<(String, String)>,
}

impl Default for CollisionState {
    fn default() -> (r: CollisionState)
        ensures
            !r.active,
            r.pairs@.len() == 0,
    {
        CollisionState { active: false, pairs: Vec::new() }
    }
}

impl CollisionState {
    /// Latch `pairs` as the streaming verdict and build the refusal the client
    /// reads.
    pub fn refuse(&mut self, pairs: Vec<(String, String)>) -> (r: Refusal)
        ensures
            final(self).active,
            final(self).pairs == pairs,
            r@ == (RefusalView::SelfCollision { pairs: rendered(pairs_view(pairs@)) }),
    {
        let text = render_pairs(&pairs);
        self.active = true;
        self.pairs = pairs;
        Refusal::SelfCollision { pairs: text }
    }

    /// Report the standing verdict again without testing anything.
    pub fn standing_refusal(&self) -> (r: Refusal)
        ensures
            r@ == (RefusalView::SelfCollision { pairs: rendered(pairs_view(self.pairs@)) }),
    {
        Refusal::SelfCollision { pairs: render_pairs(&self.pairs) }
    }

    /// Drop the standing verdict.
    pub fn clear(&mut self)
        ensures
            !final(self).active,
            final(self).pairs@.len() == 0,
    {
        self.active = false;
        self.pairs = Vec::new();
    }
}

/// What a refusal says of a list of pairs depends on the first four alone, and names
/// each of those, in brackets and in order.
pub proof fn law_a_refusal_names_the_first_four_pairs(pairs: Seq<PairView>)
    ensures
        pairs.len() == 0 ==> rendered(pairs).len() == 0,
        pairs.len() == 1 ==> rendered(pairs) == "["@ + pairs[0].0 + ", "@ + pairs[0].1 + "]"@,
        2 <= pairs.len() <= 4 ==> rendered(pairs) == rendered(pairs.drop_last()) + ", "@ + "["@
            + pairs.last().0 + ", "@ + pairs.last().1 + "]"@,
        pairs.len() > 4 ==> rendered(pairs) == rendered(pairs.take(4)),
{
    let n = pairs.len() as int;
    assert(pairs.take(n) =~= pairs);
    if n > 0 {
        let less = pairs.drop_last();
        assert(less.take(less.len() as int) =~= less);
    }
    if 2 <= n <= 4 {
        let last = pairs.last();
        let rest = rendered(pairs.drop_last());
        assert(rest + ", "@ + shown_pair(last) =~= rest + ", "@ + "["@ + last.0 + ", "@ + last.1
            + "]"@);
    }
    if n > 4 {
        assert(pairs.take(4).take(4) =~= pairs.take(4));
    }
}

/// What a refusal is reported under says what to do about it: a collision, the e-stop, a
/// controller that is disabled and a bus that did not open each have an entry of their own,
/// and everything else is a command that cannot be taken.
pub proof fn law_a_refusal_is_reported_under_its_entry(refusal: RefusalView)
    ensures
        refusal.code() == ErrorCode::SysSelfCollision <==> refusal is SelfCollision,
        refusal.code() == ErrorCode::SysEstopActive <==> refusal is EstopActive,
        refusal.code() == ErrorCode::SysControllerDisabled <==> refusal is ControllerDisabled,
        refusal.code() == ErrorCode::MotnSetupFailed <==> refusal is BusRefused,
        refusal.code() == ErrorCode::CommValidationError <==> refusal is GateFailed
            || refusal is InvalidShapes || refusal is ModeStayed,
{
}

/// What a refusal tells holds what it knows: the pairs of a collision and the detail of a
/// shape as they are, the detail of a verdict that could not be had behind what it was
/// asked of, the mode that stayed and what was wanted of it, and the bus with its cause.
pub proof fn law_a_refusal_tells_what_it_knows(
    text: Seq<char>,
    cause: Seq<char>,
    want: Mode,
    mode: Mode,
)
    ensures
        (RefusalView::SelfCollision { pairs: text }).detail() == text,
        (RefusalView::InvalidShapes { detail: text }).detail() == text,
        (RefusalView::GateFailed { detail: text }).detail() == "stream gate collision world: "@
            + text,
        RefusalView::EstopActive.detail().len() == 0,
        RefusalView::ControllerDisabled.detail()
            == "The RT core refused to enable: the e-stop line is engaged or a hard error is latched."@,
        want == Mode::Flashing ==> (RefusalView::ModeStayed { want, mode }).detail()
            == "the controller mode stayed "@ + mode.spelled()
            + ": FLASHING is reachable only from IDLE and ACTIVE_ERROR"@,
        want != Mode::Flashing ==> (RefusalView::ModeStayed { want, mode }).detail()
            == "the controller mode stayed "@ + mode.spelled() + " instead of returning to IDLE"@,
        (RefusalView::BusRefused { interface: text, cause }).detail() == "cannot open '"@ + text
            + "': "@ + cause,
{
}

/// A mode is spelled by its own name, so that no two are spelled alike.
pub proof fn law_every_mode_is_spelled_by_its_name(a: Mode, b: Mode)
    ensures
        a.spelled() == b.spelled() ==> a == b,
        Mode::Booting.spelled() == "Booting"@ && Mode::Idle.spelled() == "Idle"@,
        Mode::ActiveError.spelled() == "ActiveError"@ && Mode::Homing.spelled() == "Homing"@,
        Mode::Jog.spelled() == "Jog"@ && Mode::Stream.spelled() == "Stream"@,
        Mode::Exec.spelled() == "Exec"@ && Mode::HandGuiding.spelled() == "HandGuiding"@,
        Mode::Impedance.spelled() == "Impedance"@ && Mode::SafetyStop.spelled() == "SafetyStop"@,
        Mode::Flashing.spelled() == "Flashing"@,
{
    reveal_strlit("Booting");
    reveal_strlit("Idle");
    reveal_strlit("ActiveError");
    reveal_strlit("Homing");
    reveal_strlit("Jog");
    reveal_strlit("Stream");
    reveal_strlit("Exec");
    reveal_strlit("HandGuiding");
    reveal_strlit("Impedance");
    reveal_strlit("SafetyStop");
    reveal_strlit("Flashing");
    if a != b {
        let (x, y) = (a.spelled(), b.spelled());
        assert(x.len() != y.len() || x[0] != y[0] || x[1] != y[1]);
    }
}

} // verus!
