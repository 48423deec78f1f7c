//! What the command line asks for, and what the end of a session leads to.

use crate::text;
use vstd::prelude::*;
use vstd::string::StringExecFns;

verus! {

/// A way of passing the controller on.
#[derive(Debug, Clone, Copy, PartialEq, Eq, Structural)]
pub enum Mode {
    /// As a virtual DualShock 4.
    Ds4,
    /// As a virtual Xbox 360 pad whose right stick is the aim.
    Lightgun,
    /// As mouse and keyboard.
    LightgunRaw,
}

/// What the command line asks for.
#[derive(Debug, Clone, Copy, PartialEq, Eq, Structural)]
pub enum Launch {
    /// Hide the controller from other programs.
    SetupHidHide,
    /// Undo that.
    WipeHidHide,
    Run { mode: Mode, pseye: bool },
}

/// `flag` is among the arguments.
pub open spec fn given(args: Seq<String>, flag: Seq<char>) -> bool {
    exists|i: int| 0 <= i < args.len() && (#[trigger] args[i])@ == flag
}

/// Whether `flag` is among the arguments.
fn has_flag(args: &[String], flag: &str) -> (r: bool)
    ensures
        r == given(args@, flag@),
{
    let wanted = text::chars_of(flag);
    for i in 0..args.len()
        invariant
            wanted@ == flag@,
            forall|j: int| 0 <= j < i ==> (#[trigger] args@[j])@ != flag@,
    {
        let arg = text::chars_of(args[i].as_str());
        if text::same(arg.as_slice(), wanted.as_slice()) {
            assert(args@[i as int]@ == flag@);
            return true;
        }
    }
    false
}

/// What arguments ask for. Setting up and undoing it come before any mode, and of the two
/// lightgun modes that with mouse and keyboard.
pub open spec fn asked(args: Seq<String>) -> Launch {
    if given(args, "--setup-hidhide"@) {
        Launch::SetupHidHide
    } else if given(args, "--wipe-hidhide"@) {
        Launch::WipeHidHide
    } else {
        Launch::Run {
            mode: if given(args, "--lightgun-raw"@) {
                Mode::LightgunRaw
            } else if given(args, "--lightgun"@) {
                Mode::Lightgun
            } else {
                Mode::Ds4
            },
            pseye: given(args, "--pseye"@),
        }
    }
}

/// What the command line asks for.
pub fn select(args: &[String]) -> (launch: Launch)
    ensures
        launch == asked(args@),
{
    if has_flag(args, "--setup-hidhide") {
        return Launch::SetupHidHide;
    }
    if has_flag(args, "--wipe-hidhide") {
        return Launch::WipeHidHide;
    }
    let pseye = has_flag(args, "--pseye");
    let mode = if has_flag(args, "--lightgun-raw") {
        Mode::LightgunRaw
    } else if has_flag(args, "--lightgun") {
        Mode::Lightgun
    } else {
        Mode::Ds4
    };
    Launch::Run { mode, pseye }
}

/// The order and the number of the arguments do not matter, only which there are.
pub proof fn order_of_arguments_does_not_matter(a: Seq<String>, b: Seq<String>)
    requires
        forall|flag: Seq<char>| #[trigger] given(a, flag) == given(b, flag),
    ensures
        asked(a) == asked(b),
{
}

/// Milliseconds between two attempts to open a controller that is waited for.
pub const RECONNECT_WAIT_MS: u64 = 1000;

/// Whether a session that ended with this message lost the controller: it is about a
/// device, opening or reading it.
pub open spec fn lost_controller(message: Seq<char>) -> bool {
    ||| text::occurs(message, "disconnected"@)
    ||| text::occurs(message, "HID"@)
    ||| text::occurs(message, "open"@)
    ||| text::occurs(message, "device"@)
    ||| text::occurs(message, "hid"@)
    ||| text::occurs(message, "read"@)
}

/// Whether a session that ended with this message is to be started again once the
/// controller is back.
pub fn should_reconnect(message: &str) -> (r: bool)
    ensures
        r == lost_controller(message@),
{
    let m = text::chars_of(message);
    text::contains(m.as_slice(), text::chars_of("disconnected").as_slice()) || text::contains(
        m.as_slice(),
        text::chars_of("HID").as_slice(),
    ) || text::contains(m.as_slice(), text::chars_of("open").as_slice()) || text::contains(
        m.as_slice(),
        text::chars_of("device").as_slice(),
    ) || text::contains(m.as_slice(), text::chars_of("hid").as_slice()) || text::contains(
        m.as_slice(),
        text::chars_of("read").as_slice(),
    )
}

/// The message of a session that ends because the controller is gone, of which `cause` is
/// what the last read said: one after which the controller is waited for.
pub fn disconnect_message(cause: &str) -> (m: String)
    ensures
        m@ == "device disconnected: "@ + cause@,
        lost_controller(m@),
{
    let mut m = "device disconnected: ".to_owned();
    m.append(cause);
    proof {
        reveal_strlit("device disconnected: ");
        reveal_strlit("device");
        assert(m@.subrange(0, 6) =~= "device"@);
        assert(text::occurs_at(m@, "device"@, 0));
    }
    m
}

/// Each argument is looked at, and by itself: arguments hold a flag exactly if one of them is
/// that flag, letter for letter.
pub proof fn arguments_are_looked_at_one_by_one(
    a: Seq<String>,
    arg: String,
    b: Seq<String>,
    flag: Seq<char>,
)
    ensures
        given(a.push(arg) + b, flag) <==> given(a, flag) || arg@ == flag || given(b, flag),
        !given(Seq::<String>::empty(), flag),
{
    let all = a.push(arg) + b;
    if given(a, flag) {
        let i = choose|i: int| 0 <= i < a.len() && (#[trigger] a[i])@ == flag;
        assert(all[i]@ == flag);
    }
    if arg@ == flag {
        assert(all[a.len() as int]@ == flag);
    }
    if given(b, flag) {
        let i = choose|i: int| 0 <= i < b.len() && (#[trigger] b[i])@ == flag;
        assert(all[a.len() + 1 + i]@ == flag);
    }
    if given(all, flag) {
        let i = choose|i: int| 0 <= i < all.len() && (#[trigger] all[i])@ == flag;
        if i < a.len() {
            assert(a[i]@ == flag);
        } else if i > a.len() {
            assert(b[i - a.len() - 1]@ == flag);
        }
    }
}

/// One more argument changes what is asked for only as it says: a setup is never overruled, a
/// wipe only by a setup, mouse and keyboard by neither of the other modes, and the camera is
/// on with its flag and as it was without. An argument that is no flag changes nothing.
pub proof fn flags_rank(args: Seq<String>, arg: String)
    ensures
        ({
            let more = args.push(arg);
            let was = asked(args);
            let is = asked(more);
            &&& arg@ == "--setup-hidhide"@ || was == Launch::SetupHidHide <==> is
                == Launch::SetupHidHide
            &&& arg@ == "--wipe-hidhide"@ && was != Launch::SetupHidHide ==> is
                == Launch::WipeHidHide
            &&& arg@ != "--setup-hidhide"@ && was == Launch::WipeHidHide ==> is
                == Launch::WipeHidHide
            &&& (was matches Launch::Run { mode, pseye } && arg@ == "--pseye"@) ==> is == (
            Launch::Run { mode: was->Run_mode, pseye: true })
            &&& (was matches Launch::Run { mode, pseye } && arg@ == "--lightgun-raw"@) ==> is == (
            Launch::Run { mode: Mode::LightgunRaw, pseye: was->Run_pseye })
            &&& (was matches Launch::Run { mode, pseye } && arg@ == "--lightgun"@) ==> is == (
            Launch::Run {
                mode: if was->Run_mode == Mode::LightgunRaw {
                    Mode::LightgunRaw
                } else {
                    Mode::Lightgun
                },
                pseye: was->Run_pseye,
            })
            &&& arg@ != "--setup-hidhide"@ && arg@ != "--wipe-hidhide"@ && arg@ != "--pseye"@ && arg@
                != "--lightgun-raw"@ && arg@ != "--lightgun"@ ==> is == was
        }),
        asked(Seq::<String>::empty()) == (Launch::Run { mode: Mode::Ds4, pseye: false }),
{
    let none = Seq::<String>::empty();
    assert(args.push(arg) + none =~= args.push(arg));
    lemma_flags_differ();
    arguments_are_looked_at_one_by_one(args, arg, none, "--setup-hidhide"@);
    arguments_are_looked_at_one_by_one(args, arg, none, "--wipe-hidhide"@);
    arguments_are_looked_at_one_by_one(args, arg, none, "--pseye"@);
    arguments_are_looked_at_one_by_one(args, arg, none, "--lightgun-raw"@);
    arguments_are_looked_at_one_by_one(args, arg, none, "--lightgun"@);
}

proof fn lemma_flags_differ()
    ensures
        "--setup-hidhide"@.len() == 15,
        "--wipe-hidhide"@.len() == 14,
        "--wipe-hidhide"@[2] == 'w',
        "--pseye"@.len() == 7,
        "--lightgun-raw"@.len() == 14,
        "--lightgun-raw"@[2] == 'l',
        "--lightgun"@.len() == 10,
{
    reveal_strlit("--setup-hidhide");
    reveal_strlit("--wipe-hidhide");
    reveal_strlit("--pseye");
    reveal_strlit("--lightgun-raw");
    reveal_strlit("--lightgun");
}

/// A message about a device, about opening or reading it, has the controller waited for,
/// whatever else it says.
pub proof fn device_trouble_is_waited_out(a: Seq<char>, b: Seq<char>)
    ensures
        lost_controller(a + "disconnected"@ + b),
        lost_controller(a + "HID"@ + b),
        lost_controller(a + "open"@ + b),
        lost_controller(a + "device"@ + b),
        lost_controller(a + "hid"@ + b),
        lost_controller(a + "read"@ + b),
{
    text::enclosed_text_is_found(a, "disconnected"@, b);
    text::enclosed_text_is_found(a, "HID"@, b);
    text::enclosed_text_is_found(a, "open"@, b);
    text::enclosed_text_is_found(a, "device"@, b);
    text::enclosed_text_is_found(a, "hid"@, b);
    text::enclosed_text_is_found(a, "read"@, b);
}

/// Any other message ends the program: one after which the controller is waited for has one
/// of six words in it.
pub proof fn other_trouble_is_final(message: Seq<char>)
    requires
        lost_controller(message),
    ensures
        exists|a: Seq<char>, word: Seq<char>, b: Seq<char>|
            {
                &&& message == #[trigger] (a + word + b)
                &&& word == "disconnected"@ || word == "HID"@ || word == "open"@ || word == "device"@
                    || word == "hid"@ || word == "read"@
            },
{
    let word = if text::occurs(message, "disconnected"@) {
        "disconnected"@
    } else if text::occurs(message, "HID"@) {
        "HID"@
    } else if text::occurs(message, "open"@) {
        "open"@
    } else if text::occurs(message, "device"@) {
        "device"@
    } else if text::occurs(message, "hid"@) {
        "hid"@
    } else {
        "read"@
    };
    text::found_text_is_enclosed(message, word);
    let (a, b) = choose|a: Seq<char>, b: Seq<char>| message == #[trigger] (a + word + b);
    assert(message == a + word + b);
}

} // verus!
