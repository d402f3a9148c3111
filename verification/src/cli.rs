//! The command line and the terminal loop: which port to listen on, and what the loop does about
//! a key, a network event or a tick.

use vstd::prelude::*;
use vstd::string::*;

use crate::app::{App, AppAction, texts};
use crate::app_model::{AppActionView, AppView, KeyEvent};
use crate::message::{NetEvent, UiCommand, UiCommandView};
use crate::text::{
    begins_with, decimal, decimal_reads_back, is_digit, parse_u16, same_text, strip_start, u16_named,
};

verus! {

/// The local port that Tor forwards inbound traffic to, unless another is given.
pub const DEFAULT_LOCAL_PORT: u16 = 8080;

// ── The port ───────────────────────────────────────────────────────────────────────────────

/// The port that the arguments name: the value behind the first `--port` or `-p`, or in the
/// first `--port=`, whichever comes first, if it is a port.
pub open spec fn port_named(args: Seq<Seq<char>>) -> Option<u16>
    decreases args.len(),
{
    if args.len() == 0 {
        None
    } else if args[0] == "--port"@ || args[0] == "-p"@ {
        if args.len() > 1 {
            u16_named(args[1])
        } else {
            None
        }
    } else if begins_with(args[0], "--port="@) {
        u16_named(args[0].skip("--port="@.len() as int))
    } else {
        port_named(args.drop_first())
    }
}

/// Finds the port in the arguments (without the program's name).
pub fn parse_port_arg(args: &Vec<String>) -> (r: Option<u16>)
    ensures
        r == port_named(texts(args@)),
{
    let n: usize = args.len();
    let ghost all = texts(args@);
    let mut i: usize = 0;
    assert(all.skip(0) == all);
    while i < n
        invariant
            i <= n,
            n == args@.len(),
            all == texts(args@),
            port_named(all) == port_named(all.skip(i as int)),
        decreases n - i,
    {
        let ghost rest = all.skip(i as int);
        assert(rest[0] == args@[i as int]@);
        let arg = args[i].as_str();
        if same_text(arg, "--port") || same_text(arg, "-p") {
            if i + 1 < n {
                assert(rest[1] == args@[i + 1]@);
                return parse_u16(args[i + 1].as_str());
            } else {
                return None;
            }
        }
        match strip_start(arg, "--port=") {
            Some(value) => {
                return parse_u16(value);
            },
            None => {},
        }
        assert(rest.drop_first() == all.skip(i + 1));
        i = i + 1;
    }
    None
}

/// The port to listen on.
pub fn local_port(args: &Vec<String>) -> (r: u16)
    ensures
        r == (match port_named(texts(args@)) {
            Some(port) => port,
            None => DEFAULT_LOCAL_PORT,
        }),
{
    match parse_port_arg(args) {
        Some(port) => port,
        None => DEFAULT_LOCAL_PORT,
    }
}

/// Every port can be given, in each of the three forms.
pub proof fn every_port_can_be_given(port: u16)
    ensures
        port_named(seq!["--port"@, decimal(port as nat)]) == Some(port),
        port_named(seq!["-p"@, decimal(port as nat)]) == Some(port),
        port_named(seq!["--port="@ + decimal(port as nat)]) == Some(port),
{
    let d = decimal(port as nat);
    decimal_reads_back(port as nat);
    assert(is_digit(d[0]));
    assert(u16_named(d) == Some(port));
    let joined = "--port="@ + d;
    reveal_strlit("--port=");
    reveal_strlit("--port");
    reveal_strlit("-p");
    assert(joined.take("--port="@.len() as int) == "--port="@);
    assert(joined.skip("--port="@.len() as int) == d);
    assert(joined.len() > 7);
    assert("--port"@.len() == 6 && "-p"@.len() == 2 && "--port="@.len() == 7);
}

// ── The terminal loop ──────────────────────────────────────────────────────────────────────

/// What reaches the terminal loop.
pub enum UiEvent {
    /// A key was pressed (or, where `press` is false, released or repeated).
    Key { press: bool, key: KeyEvent },
    /// Any other terminal input, such as a resize.
    OtherInput,
    /// The terminal input is at its end.
    InputClosed,
    /// Reading the terminal input failed.
    InputFailed(String),
    /// The network layer reports something.
    Net(NetEvent),
    /// The periodic tick.
    Tick,
}

/// What the terminal loop does next.
pub enum UiFlow {
    /// Draw and wait for the next event.
    Continue,
    /// Hand the command to the network manager, then go on.
    Forward(UiCommand),
    /// Leave the loop.
    Stop,
    /// Leave the loop with an error.
    Fail(String),
}

/// What a [`UiFlow`] says.
#[verifier::ext_equal]
pub enum UiFlowView {
    Continue,
    Forward(UiCommandView),
    Stop,
    Fail(Seq<char>),
}

impl View for UiFlow {
    type V = UiFlowView;

    open spec fn view(&self) -> UiFlowView {
        match *self {
            UiFlow::Continue => UiFlowView::Continue,
            UiFlow::Forward(cmd) => UiFlowView::Forward(cmd@),
            UiFlow::Stop => UiFlowView::Stop,
            UiFlow::Fail(e) => UiFlowView::Fail(e@),
        }
    }
}

/// What the loop does about an action of the application.
pub open spec fn flow_of(action: Option<AppActionView>) -> UiFlowView {
    match action {
        None => UiFlowView::Continue,
        Some(AppActionView::Quit) => UiFlowView::Stop,
        Some(AppActionView::Command(cmd)) => UiFlowView::Forward(cmd),
    }
}

/// The state after an event of the terminal loop, and what the loop does next. Keys count when
/// they are pressed; other terminal input only causes another drawing. The end of the input ends
/// the loop, and a failure to read it ends the loop with that error.
pub open spec fn after_ui_event(v: AppView, ev: UiEvent) -> (AppView, UiFlowView) {
    match ev {
        UiEvent::Key { press, key } => if press {
            (v.after_key(key).0, flow_of(v.after_key(key).1))
        } else {
            (v, UiFlowView::Continue)
        },
        UiEvent::OtherInput => (v, UiFlowView::Continue),
        UiEvent::InputClosed => (v, UiFlowView::Stop),
        UiEvent::InputFailed(e) => (v, UiFlowView::Fail(e@)),
        UiEvent::Net(e) => (v.after_event(e@), UiFlowView::Continue),
        UiEvent::Tick => (v, UiFlowView::Continue),
    }
}

/// Whether an event finds every name that it shows.
pub open spec fn accepts_ui_event(v: AppView, ev: UiEvent) -> bool {
    match ev {
        UiEvent::Key { press, key } => press ==> v.accepts_key(key),
        UiEvent::Net(e) => v.accepts_event(e@),
        _ => true,
    }
}

/// One round of the terminal loop.
pub fn run_ui(app: &mut App, ev: UiEvent) -> (r: UiFlow)
    requires
        accepts_ui_event(old(app)@, ev),
    ensures
        (final(app)@, r@) == after_ui_event(old(app)@, ev),
        old(app)@.wf() ==> final(app)@.wf(),
{
    match ev {
        UiEvent::Key { press, key } => {
            if !press {
                return UiFlow::Continue;
            }
            match app.on_key(key) {
                Some(AppAction::Quit) => UiFlow::Stop,
                Some(AppAction::Command(cmd)) => UiFlow::Forward(cmd),
                None => UiFlow::Continue,
            }
        },
        UiEvent::OtherInput => UiFlow::Continue,
        UiEvent::InputClosed => UiFlow::Stop,
        UiEvent::InputFailed(e) => UiFlow::Fail(e),
        UiEvent::Net(e) => {
            app.apply_net_event(e);
            UiFlow::Continue
        },
        UiEvent::Tick => {
            app.on_tick();
            UiFlow::Continue
        },
    }
}

} // verus!
