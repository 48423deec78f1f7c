//! Setting up HidHide, the filter that keeps the real controller out of games' sight.
//!
//! Everything goes through HidHide's command line tool. This module decides which commands
//! are run, in which order, and what their replies mean.

use crate::json;
use crate::json::Json;
use crate::text;
use vstd::prelude::*;

verus! {

/// Why HidHide could not be set up.
#[derive(Debug)]
pub enum HidHideError {
    /// The command line tool is not installed.
    CliMissing,
    /// The command line tool could not be started, for this reason.
    CliNotStarted { cause: String },
    /// A command failed.
    CliFailed { args: Vec<String>, stdout: String, stderr: String },
    /// The listing of devices is no JSON document.
    BadListing(serde_json::Error),
    /// No controller is in the listing of devices.
    NoController,
}

/// What a run of commands is for.
#[derive(Debug, Clone, Copy, PartialEq, Eq, Structural)]
pub enum Purpose {
    /// Hide the controller from everyone but this program.
    Setup,
    /// Undo the setup.
    Wipe,
}

/// What `str::to_lowercase` makes of a text.
pub uninterp spec fn lowercase(s: Seq<char>) -> Seq<char>;

/// The small letter of a capital of the Latin alphabet; any other character itself.
pub open spec fn small(c: char) -> char {
    if 'A' <= c <= 'Z' {
        (c as u32 + 32) as char
    } else {
        c
    }
}

/// The text with its capitals replaced by small letters.
pub open spec fn in_small(s: Seq<char>) -> Seq<char> {
    s.map_values(|c: char| small(c))
}

/// Every character is one of ASCII.
pub open spec fn is_ascii(s: Seq<char>) -> bool {
    forall|i: int| 0 <= i < s.len() ==> (#[trigger] s[i] as u32) < 128
}

/// `str::to_lowercase`. What it returns is a function of the text; of a text in ASCII it
/// is the text with its capitals replaced by small letters.
#[verifier::external_body]
fn to_lowercase(s: &str) -> (r: String)
    ensures
        r@ == lowercase(s@),
        is_ascii(s@) ==> r@ == in_small(s@),
{
    s.to_lowercase()
}

/// Whether a device instance path is the controller's: its vendor and its product number
/// stand in it, in whatever place and case. USB and Bluetooth paths have different forms.
pub open spec fn is_controller_path(path: Seq<char>) -> bool {
    text::occurs(lowercase(path), "054c"@) && text::occurs(lowercase(path), "0bb2"@)
}

/// The member `key` of an object.
pub open spec fn member(j: Json, key: Seq<char>) -> Option<Json> {
    match j {
        Json::Object(m) => if m.contains_key(key) {
            Some(m[key])
        } else {
            None
        },
        _ => None,
    }
}

/// The controller's path in the entry of one device, if it is the controller's.
pub open spec fn device_path(device: Json) -> Option<Seq<char>> {
    match member(device, "deviceInstancePath"@) {
        Some(Json::Text(path)) => if is_controller_path(path) {
            Some(path)
        } else {
            None
        },
        _ => None,
    }
}

/// The controller's paths among devices, in order.
pub open spec fn device_paths(devices: Seq<Json>) -> Seq<Seq<char>>
    decreases devices.len(),
{
    if devices.len() == 0 {
        Seq::empty()
    } else {
        let before = device_paths(devices.drop_last());
        match device_path(devices.last()) {
            Some(path) => before.push(path),
            None => before,
        }
    }
}

/// The controller's paths in one group of the listing, in order.
pub open spec fn group_paths(group: Json) -> Seq<Seq<char>> {
    match member(group, "devices"@) {
        Some(Json::List(devices)) => device_paths(devices),
        _ => Seq::empty(),
    }
}

/// The controller's paths in groups of the listing, in order.
pub open spec fn groups_paths(groups: Seq<Json>) -> Seq<Seq<char>>
    decreases groups.len(),
{
    if groups.len() == 0 {
        Seq::empty()
    } else {
        groups_paths(groups.drop_last()) + group_paths(groups.last())
    }
}

/// The controller's paths in a listing, in order.
pub open spec fn listing_paths(listing: Json) -> Seq<Seq<char>> {
    match listing {
        Json::List(groups) => groups_paths(groups),
        _ => Seq::empty(),
    }
}

/// Whether a device instance path is the controller's. Of a path in ASCII that is plain to
/// see: both numbers stand in it once its capitals are small letters.
pub fn is_controller(path: &str) -> (r: bool)
    ensures
        r == is_controller_path(path@),
        is_ascii(path@) ==> r == (text::occurs(in_small(path@), "054c"@) && text::occurs(
            in_small(path@),
            "0bb2"@,
        )),
{
    let lower = text::chars_of(to_lowercase(path).as_str());
    text::contains(lower.as_slice(), text::chars_of("054c").as_slice()) && text::contains(
        lower.as_slice(),
        text::chars_of("0bb2").as_slice(),
    )
}

/// The texts in a vector.
pub open spec fn texts(v: Seq<String>) -> Seq<Seq<char>> {
    v.map_values(|s: String| s@)
}

proof fn lemma_texts_push(v: Seq<String>, s: String)
    ensures
        texts(v.push(s)) == texts(v).push(s@),
{
    assert(texts(v.push(s)) =~= texts(v).push(s@));
}

/// Adds the controller's path in the entry of one device, if it is the controller's.
fn push_device_path(device: &serde_json::Value, paths: &mut Vec<String>)
    ensures
        texts(final(paths)@) == match device_path(json::contents(*device)) {
            Some(path) => texts(old(paths)@).push(path),
            None => texts(old(paths)@),
        },
{
    if let Some(value) = json::get(device, "deviceInstancePath") {
        if let Some(path) = json::as_str(value) {
            if is_controller(path) {
                let path = path.to_owned();
                proof {
                    lemma_texts_push(paths@, path);
                }
                paths.push(path);
            }
        }
    }
}

/// Adds the controller's paths in one group of the listing.
fn push_group_paths(group: &serde_json::Value, paths: &mut Vec<String>)
    ensures
        texts(final(paths)@) == texts(old(paths)@) + group_paths(json::contents(*group)),
{
    let ghost start = texts(paths@);
    let devices = match json::get(group, "devices") {
        Some(value) => json::as_array(value),
        None => None,
    };
    let devices = match devices {
        Some(devices) => devices,
        None => {
            assert(texts(paths@) =~= start + group_paths(json::contents(*group)));
            return;
        },
    };
    let ghost all = Seq::new(devices@.len(), |i: int| json::contents(devices@[i]));
    let n: usize = devices.len();
    assert(all.take(0) =~= Seq::<Json>::empty());
    assert(texts(paths@) =~= start + device_paths(all.take(0)));
    for i in 0..n
        invariant
            n == devices@.len(),
            all == Seq::new(devices@.len(), |i: int| json::contents(devices@[i])),
            texts(paths@) == start + device_paths(all.take(i as int)),
    {
        proof {
            assert(all.take(i + 1).drop_last() =~= all.take(i as int));
            assert(all.take(i + 1).last() == json::contents(devices@[i as int]));
        }
        push_device_path(&devices[i], paths);
        assert(texts(paths@) =~= start + device_paths(all.take(i + 1)));
    }
    assert(all.take(n as int) =~= all);
}

/// The controller's paths in a listing that has been read. There can be more than one,
/// where both the USB and the Bluetooth connection are present.
pub fn device_instance_paths(listing: &serde_json::Value) -> (paths: Vec<String>)
    ensures
        texts(paths@) == listing_paths(json::contents(*listing)),
{
    let mut paths: Vec<String> = Vec::new();
    let groups = match json::as_array(listing) {
        Some(groups) => groups,
        None => {
            assert(texts(paths@) =~= Seq::empty());
            return paths;
        },
    };
    let ghost all = Seq::new(groups@.len(), |i: int| json::contents(groups@[i]));
    let n: usize = groups.len();
    assert(all.take(0) =~= Seq::<Json>::empty());
    assert(texts(paths@) =~= groups_paths(all.take(0)));
    for i in 0..n
        invariant
            n == groups@.len(),
            all == Seq::new(groups@.len(), |i: int| json::contents(groups@[i])),
            texts(paths@) == groups_paths(all.take(i as int)),
    {
        proof {
            assert(all.take(i + 1).drop_last() =~= all.take(i as int));
            assert(all.take(i + 1).last() == json::contents(groups@[i as int]));
        }
        push_group_paths(&groups[i], &mut paths);
    }
    assert(all.take(n as int) =~= all);
    paths
}

/// The controller's paths in the text of a listing.
pub fn find_device_instance_paths(json_text: &str) -> (paths: Result<Vec<String>, HidHideError>)
    ensures
        paths is Ok <==> json::read_document(json_text@) is Some,
        paths matches Ok(p) ==> texts(p@) == listing_paths(json::read_document(json_text@)->0),
        paths matches Err(e) ==> e is BadListing,
{
    match json::from_str(json_text) {
        Ok(listing) => Ok(device_instance_paths(&listing)),
        Err(e) => Err(HidHideError::BadListing(e)),
    }
}

proof fn lemma_found_in_devices(devices: Seq<Json>)
    ensures
        forall|i: int|
            0 <= i < device_paths(devices).len() ==> is_controller_path(
                #[trigger] device_paths(devices)[i],
            ),
        forall|k: int|
            0 <= k < devices.len() && device_path(#[trigger] devices[k]) is Some ==> device_paths(
                devices,
            ).contains(device_path(devices[k])->0),
    decreases devices.len(),
{
    if devices.len() > 0 {
        let fewer = devices.drop_last();
        let before = device_paths(fewer);
        let all = device_paths(devices);
        lemma_found_in_devices(fewer);
        assert forall|k: int| 0 <= k < devices.len() && device_path(#[trigger] devices[k]) is Some
            implies all.contains(device_path(devices[k])->0) by {
            if k < fewer.len() {
                let path = device_path(fewer[k])->0;
                let at = choose|at: int| 0 <= at < before.len() && before[at] == path;
                assert(all[at] == path);
            } else {
                assert(all[all.len() - 1] == device_path(devices[k])->0);
            }
        }
    }
}

proof fn lemma_found_in_groups(groups: Seq<Json>)
    ensures
        forall|i: int|
            0 <= i < groups_paths(groups).len() ==> is_controller_path(
                #[trigger] groups_paths(groups)[i],
            ),
        forall|g: int, path: Seq<char>|
            0 <= g < groups.len() && #[trigger] group_paths(groups[g]).contains(path)
                ==> groups_paths(groups).contains(path),
    decreases groups.len(),
{
    if groups.len() > 0 {
        let fewer = groups.drop_last();
        let before = groups_paths(fewer);
        let own = group_paths(groups.last());
        let all = groups_paths(groups);
        lemma_found_in_groups(fewer);
        match member(groups.last(), "devices"@) {
            Some(Json::List(devices)) => {
                lemma_found_in_devices(devices);
            },
            _ => {},
        }
        assert forall|i: int| 0 <= i < all.len() implies is_controller_path(#[trigger] all[i]) by {
            if i < before.len() {
                assert(all[i] == before[i]);
            } else {
                assert(all[i] == own[i - before.len()]);
            }
        }
        assert forall|g: int, path: Seq<char>|
            0 <= g < groups.len() && #[trigger] group_paths(groups[g]).contains(
                path,
            ) implies all.contains(path) by {
            if g < fewer.len() {
                assert(group_paths(fewer[g]).contains(path));
                let at = choose|at: int| 0 <= at < before.len() && before[at] == path;
                assert(all[at] == path);
            } else {
                let at = choose|at: int| 0 <= at < own.len() && own[at] == path;
                assert(all[before.len() + at] == path);
            }
        }
    }
}

/// Only the controller is hidden: every path found in a listing is the controller's.
pub proof fn found_paths_are_the_controllers(groups: Seq<Json>, i: int)
    requires
        0 <= i < listing_paths(Json::List(groups)).len(),
    ensures
        is_controller_path(listing_paths(Json::List(groups))[i]),
{
    lemma_found_in_groups(groups);
}

/// No connection of the controller is missed: wherever in a listing a device has a path
/// that is the controller's, that path is found.
pub proof fn controllers_paths_are_found(groups: Seq<Json>, g: int, devices: Seq<Json>, d: int)
    requires
        0 <= g < groups.len(),
        member(groups[g], "devices"@) == Some(Json::List(devices)),
        0 <= d < devices.len(),
        device_path(devices[d]) is Some,
    ensures
        listing_paths(Json::List(groups)).contains(device_path(devices[d])->0),
{
    lemma_found_in_devices(devices);
    lemma_found_in_groups(groups);
    assert(group_paths(groups[g]).contains(device_path(devices[d])->0));
}

/// Whether the command line tool is there to be run.
pub fn check_cli_exists(exists: bool) -> (r: Result<(), HidHideError>)
    ensures
        r is Ok <==> exists,
        r matches Err(e) ==> e is CliMissing,
{
    if exists {
        Ok(())
    } else {
        Err(HidHideError::CliMissing)
    }
}

/// Whether a command did what it was to do: it exited well, and speaks of an error code
/// on neither of its outputs.
pub open spec fn cli_succeeded(success: bool, stdout: Seq<char>, stderr: Seq<char>) -> bool {
    success && !text::occurs(stderr, "Error code"@) && !text::occurs(stdout, "Error code"@)
}

/// What a command that has exited says: its output, or that it failed.
pub fn cli_reply(args: Vec<String>, success: bool, stdout: String, stderr: String) -> (r: Result<
    String,
    HidHideError,
>)
    ensures
        r is Ok <==> cli_succeeded(success, stdout@, stderr@),
        r matches Ok(s) ==> s == stdout,
        r matches Err(e) ==> e == (HidHideError::CliFailed { args, stdout, stderr }),
{
    let mark = text::chars_of("Error code");
    if !success || text::contains(text::chars_of(stderr.as_str()).as_slice(), mark.as_slice())
        || text::contains(text::chars_of(stdout.as_str()).as_slice(), mark.as_slice()) {
        Err(HidHideError::CliFailed { args, stdout, stderr })
    } else {
        Ok(stdout)
    }
}

/// A command, by its arguments.
pub type Command = Seq<Seq<char>>;

/// The command that lists the devices.
pub open spec fn list_command() -> Command {
    seq!["--dev-gaming"@]
}

/// The command that a run starts with.
pub open spec fn first_command(purpose: Purpose, exe: Seq<char>) -> Command {
    match purpose {
        Purpose::Setup => seq!["--app-reg"@, exe],
        Purpose::Wipe => seq!["--cloak-off"@],
    }
}

/// The command that a run has for one path of the controller.
pub open spec fn path_command(purpose: Purpose, path: Seq<char>) -> Command {
    match purpose {
        Purpose::Setup => seq!["--dev-hide"@, path],
        Purpose::Wipe => seq!["--dev-unhide"@, path],
    }
}

/// The command that a run ends with.
pub open spec fn last_command(purpose: Purpose, exe: Seq<char>) -> Command {
    match purpose {
        Purpose::Setup => seq!["--cloak-on"@],
        Purpose::Wipe => seq!["--app-unreg"@, exe],
    }
}

/// All commands of a run in which the listing shows the given paths.
pub open spec fn commands(purpose: Purpose, exe: Seq<char>, paths: Seq<Seq<char>>) -> Seq<Command> {
    seq![first_command(purpose, exe), list_command()] + paths.map_values(
        |p: Seq<char>| path_command(purpose, p),
    ).push(last_command(purpose, exe))
}

/// Whether the command that a run of `total` commands has after `done` of them names this
/// program: the first of a setup, and the last of a wipe.
pub open spec fn naming(purpose: Purpose, done: int, total: int) -> bool {
    match purpose {
        Purpose::Setup => done == 0,
        Purpose::Wipe => done + 1 == total,
    }
}

/// Whether a run cannot go on with these paths: a setup without a controller to hide.
pub open spec fn lacks_controller(purpose: Purpose, paths: Seq<Seq<char>>) -> bool {
    purpose == Purpose::Setup && paths.len() == 0
}

/// Whether a run of `total` commands goes on if that after `done` of them fails: only the
/// last of a wipe may.
pub open spec fn forgiving(purpose: Purpose, done: int, total: int) -> bool {
    purpose == Purpose::Wipe && done + 1 == total
}

/// Which command of a run is to be run now.
#[derive(Debug, Clone, Copy, PartialEq, Eq, Structural)]
enum Stage {
    First,
    List,
    /// The command for the controller's path of this index.
    Path(usize),
    Last,
    /// None: the run is over.
    Over,
}

/// A run of commands, up to some point.
#[derive(Debug)]
pub struct Script {
    purpose: Purpose,
    /// The controller's paths, once they have been listed.
    paths: Vec<String>,
    stage: Stage,
}

/// How a run goes on after a command.
#[derive(Debug)]
pub enum Progress {
    Continue,
    /// The command failed, which does not stop the run.
    Warning(HidHideError),
}

impl Script {
    /// The run is at a point that it can reach.
    #[verifier::type_invariant]
    spec fn wf(self) -> bool {
        &&& self.stage matches Stage::Path(i) ==> i < self.paths@.len()
        &&& self.done() < 2 ==> self.paths@.len() == 0
        &&& self.done() >= 2 && self.purpose == Purpose::Setup ==> self.paths@.len() > 0
    }

    /// What the run is for.
    pub closed spec fn purpose(self) -> Purpose {
        self.purpose
    }

    /// The controller's paths, once they have been listed.
    pub closed spec fn listed_paths(self) -> Seq<Seq<char>> {
        texts(self.paths@)
    }

    /// How many commands have been run.
    pub closed spec fn done(self) -> int {
        match self.stage {
            Stage::First => 0,
            Stage::List => 1,
            Stage::Path(i) => 2 + i,
            Stage::Last => 2 + self.paths@.len() as int,
            Stage::Over => 3 + self.paths@.len() as int,
        }
    }

    /// The commands of the run of the program at `exe`, as far as they are settled: before
    /// the listing, without those for the controller's paths.
    pub open spec fn commands(self, exe: Seq<char>) -> Seq<Command> {
        commands(self.purpose(), exe, self.listed_paths())
    }

    /// How many commands the run has, as far as they are settled.
    pub open spec fn total(self) -> int {
        3 + self.listed_paths().len() as int
    }

    /// A run that has yet to begin.
    pub fn new(purpose: Purpose) -> (script: Script)
        ensures
            script.purpose() == purpose,
            script.listed_paths().len() == 0,
            script.done() == 0,
    {
        Script { purpose, paths: Vec::new(), stage: Stage::First }
    }

    /// The controller's paths, once they have been listed.
    pub fn paths(&self) -> (paths: &Vec<String>)
        ensures
            texts(paths@) == self.listed_paths(),
    {
        &self.paths
    }

    /// Whether the command to run now names this program: the first of a setup, and the last
    /// of a wipe. No other depends on where the program is.
    pub fn names_program(&self) -> (r: bool)
        ensures
            r <==> naming(self.purpose(), self.done(), self.total()),
            !r && self.done() < self.total() ==> forall|a: Seq<char>, b: Seq<char>|
                #![trigger self.commands(a), self.commands(b)]
                self.commands(a)[self.done()] == self.commands(b)[self.done()],
    {
        proof {
            use_type_invariant(self);
        }
        match (self.purpose, self.stage) {
            (Purpose::Setup, Stage::First) => true,
            (Purpose::Wipe, Stage::Last) => true,
            _ => false,
        }
    }

    /// The command to run now, for the program at `exe`; none once the run is over.
    pub fn next_command(&self, exe: &str) -> (command: Option<Vec<String>>)
        ensures
            command is Some <==> self.done() < self.total(),
            command matches Some(c) ==> texts(c@) == self.commands(exe@)[self.done()],
    {
        proof {
            use_type_invariant(self);
        }
        let mut args: Vec<String> = Vec::new();
        match (self.stage, self.purpose) {
            (Stage::First, Purpose::Setup) => {
                args.push("--app-reg".to_owned());
                args.push(exe.to_owned());
            },
            (Stage::First, Purpose::Wipe) => {
                args.push("--cloak-off".to_owned());
            },
            (Stage::List, _) => {
                args.push("--dev-gaming".to_owned());
            },
            (Stage::Path(i), Purpose::Setup) => {
                args.push("--dev-hide".to_owned());
                args.push(self.paths[i].clone());
            },
            (Stage::Path(i), Purpose::Wipe) => {
                args.push("--dev-unhide".to_owned());
                args.push(self.paths[i].clone());
            },
            (Stage::Last, Purpose::Setup) => {
                args.push("--cloak-on".to_owned());
            },
            (Stage::Last, Purpose::Wipe) => {
                args.push("--app-unreg".to_owned());
                args.push(exe.to_owned());
            },
            (Stage::Over, _) => {
                return None;
            },
        }
        assert(texts(args@) =~= self.commands(exe@)[self.done()]);
        Some(args)
    }

    /// Goes on after the listing, with the controller's paths that it shows. A setup
    /// without a controller to hide fails.
    pub fn listed(&mut self, paths: Vec<String>) -> (r: Result<(), HidHideError>)
        requires
            old(self).done() == 1,
        ensures
            final(self).purpose() == old(self).purpose(),
            r is Err <==> lacks_controller(old(self).purpose(), texts(paths@)),
            r matches Err(e) ==> e is NoController && *final(self) == *old(self),
            r is Ok ==> final(self).listed_paths() == texts(paths@) && final(self).done() == 2,
    {
        proof {
            use_type_invariant(&*self);
        }
        let purpose = self.purpose;
        if paths.len() == 0 {
            if let Purpose::Setup = purpose {
                return Err(HidHideError::NoController);
            }
            *self = Script { purpose, paths, stage: Stage::Last };
        } else {
            *self = Script { purpose, paths, stage: Stage::Path(0) };
        }
        Ok(())
    }

    /// Goes on after the reply to the present command. A command that failed, or could not
    /// be started, ends the run; only that this program is still registered at the end of a
    /// wipe does not.
    pub fn completed(&mut self, reply: Result<String, HidHideError>) -> (r: Result<
        Progress,
        HidHideError,
    >)
        requires
            old(self).done() < old(self).total(),
        ensures
            final(self).purpose() == old(self).purpose(),
            r is Err ==> *final(self) == *old(self),
            r is Ok ==> final(self).done() == old(self).done() + 1,
            old(self).done() == 1 ==> (match reply {
                Err(e) => r == Err::<Progress, HidHideError>(e),
                Ok(listing) => match json::read_document(listing@) {
                    None => r matches Err(e) && e is BadListing,
                    Some(j) => if lacks_controller(old(self).purpose(), listing_paths(j)) {
                        r matches Err(e) && e is NoController
                    } else {
                        &&& r == Ok::<Progress, HidHideError>(Progress::Continue)
                        &&& final(self).listed_paths() == listing_paths(j)
                    },
                },
            }),
            old(self).done() != 1 ==> {
                &&& final(self).listed_paths() == old(self).listed_paths()
                &&& r == match reply {
                    Ok(_) => Ok::<Progress, HidHideError>(Progress::Continue),
                    Err(e) => if forgiving(old(self).purpose(), old(self).done(), old(self).total()) {
                        Ok::<Progress, HidHideError>(Progress::Warning(e))
                    } else {
                        Err::<Progress, HidHideError>(e)
                    },
                }
            },
    {
        proof {
            use_type_invariant(&*self);
        }
        if let Stage::List = self.stage {
            let listing = match reply {
                Ok(listing) => listing,
                Err(e) => return Err(e),
            };
            let paths = match find_device_instance_paths(listing.as_str()) {
                Ok(paths) => paths,
                Err(e) => return Err(e),
            };
            return match self.listed(paths) {
                Ok(_) => Ok(Progress::Continue),
                Err(e) => Err(e),
            };
        }
        let progress = match reply {
            Ok(_) => Progress::Continue,
            Err(e) => match (self.stage, self.purpose) {
                (Stage::Last, Purpose::Wipe) => Progress::Warning(e),
                _ => return Err(e),
            },
        };
        self.stage = match self.stage {
            Stage::First => Stage::List,
            Stage::Path(i) => if i < self.paths.len() - 1 {
                Stage::Path(i + 1)
            } else {
                Stage::Last
            },
            _ => Stage::Over,
        };
        Ok(progress)
    }
}

/// The command that takes back what `c` did, for a command that changes something.
pub open spec fn inverse(c: Command) -> Command {
    if c.len() == 2 && c[0] == "--app-reg"@ {
        seq!["--app-unreg"@, c[1]]
    } else if c.len() == 2 && c[0] == "--dev-hide"@ {
        seq!["--dev-unhide"@, c[1]]
    } else {
        seq!["--cloak-off"@]
    }
}

/// A wipe undoes a setup: of all that a setup runs, but for the listing, which changes
/// nothing, a wipe that finds the same paths runs the inverse.
pub proof fn wipe_undoes_setup(exe: Seq<char>, paths: Seq<Seq<char>>, i: int)
    requires
        0 <= i < commands(Purpose::Setup, exe, paths).len(),
        i != 1,
    ensures
        commands(Purpose::Wipe, exe, paths).contains(
            inverse(commands(Purpose::Setup, exe, paths)[i]),
        ),
{
    reveal_strlit("--app-reg");
    reveal_strlit("--dev-hide");
    reveal_strlit("--cloak-on");
    let setup = commands(Purpose::Setup, exe, paths);
    let wipe = commands(Purpose::Wipe, exe, paths);
    if i == 0 {
        assert(wipe[wipe.len() - 1] =~= inverse(setup[i]));
    } else if i < setup.len() - 1 {
        assert(setup[i] == path_command(Purpose::Setup, paths[i - 2]));
        assert("--dev-hide"@.len() != "--app-reg"@.len());
        assert(wipe[i] =~= inverse(setup[i]));
    } else {
        assert(setup[i] == last_command(Purpose::Setup, exe));
        assert(wipe[0] =~= inverse(setup[i]));
    }
}

/// A setup is whole: it registers this program before anything is hidden, hides every
/// path that is found, each once, and turns hiding on last.
pub proof fn setup_hides_every_path(exe: Seq<char>, paths: Seq<Seq<char>>)
    ensures
        commands(Purpose::Setup, exe, paths).len() == paths.len() + 3,
        commands(Purpose::Setup, exe, paths)[0] == seq!["--app-reg"@, exe],
        commands(Purpose::Setup, exe, paths)[1] == seq!["--dev-gaming"@],
        forall|i: int|
            0 <= i < paths.len() ==> #[trigger] commands(Purpose::Setup, exe, paths)[i + 2] == seq![
                "--dev-hide"@,
                paths[i],
            ],
        commands(Purpose::Setup, exe, paths).last() == seq!["--cloak-on"@],
{
}

/// A wipe is whole: it turns hiding off first, takes every path that is found off the list,
/// each once, and this program last.
pub proof fn wipe_shows_every_path(exe: Seq<char>, paths: Seq<Seq<char>>)
    ensures
        commands(Purpose::Wipe, exe, paths).len() == paths.len() + 3,
        commands(Purpose::Wipe, exe, paths)[0] == seq!["--cloak-off"@],
        commands(Purpose::Wipe, exe, paths)[1] == seq!["--dev-gaming"@],
        forall|i: int|
            0 <= i < paths.len() ==> #[trigger] commands(Purpose::Wipe, exe, paths)[i + 2] == seq![
                "--dev-unhide"@,
                paths[i],
            ],
        commands(Purpose::Wipe, exe, paths).last() == seq!["--app-unreg"@, exe],
{
}

/// The commands that name this program are those that register it and take it off the list
/// again, and the one that may fail is the latter: no other.
pub proof fn registration_names_the_program(
    purpose: Purpose,
    exe: Seq<char>,
    paths: Seq<Seq<char>>,
    i: int,
)
    requires
        0 <= i < commands(purpose, exe, paths).len(),
    ensures
        ({
            let all = commands(purpose, exe, paths);
            let verb = all[i][0];
            &&& naming(purpose, i, all.len() as int) <==> verb == "--app-reg"@ || verb
                == "--app-unreg"@
            &&& naming(purpose, i, all.len() as int) ==> all[i].len() == 2 && all[i][1] == exe
            &&& forgiving(purpose, i, all.len() as int) <==> verb == "--app-unreg"@
        }),
{
    lemma_verbs_differ();
    let all = commands(purpose, exe, paths);
    if i == 0 {
        assert(all[i] == first_command(purpose, exe));
    } else if i == 1 {
        assert(all[i] == list_command());
    } else if i < all.len() - 1 {
        assert(all[i] == path_command(purpose, paths[i - 2]));
    } else {
        assert(all[i] == last_command(purpose, exe));
    }
}

proof fn lemma_verbs_differ()
    ensures
        "--app-reg"@.len() == 9,
        "--app-unreg"@.len() == 11,
        "--app-unreg"@[2] == 'a',
        "--dev-hide"@.len() == 10,
        "--dev-unhide"@.len() == 12,
        "--dev-gaming"@.len() == 12,
        "--cloak-on"@.len() == 10,
        "--cloak-off"@.len() == 11,
        "--cloak-off"@[2] == 'c',
{
    reveal_strlit("--app-reg");
    reveal_strlit("--app-unreg");
    reveal_strlit("--dev-hide");
    reveal_strlit("--dev-unhide");
    reveal_strlit("--dev-gaming");
    reveal_strlit("--cloak-on");
    reveal_strlit("--cloak-off");
}

/// The numbers of the vendor and of the product may stand in a path in either order, with
/// anything around them, and both must.
pub proof fn both_numbers_make_the_controller(
    path: Seq<char>,
    a: Seq<char>,
    b: Seq<char>,
    c: Seq<char>,
)
    ensures
        lowercase(path) == a + "054c"@ + b + "0bb2"@ + c ==> is_controller_path(path),
        lowercase(path) == a + "0bb2"@ + b + "054c"@ + c ==> is_controller_path(path),
        is_controller_path(path) ==> exists|x: Seq<char>, y: Seq<char>|
            lowercase(path) == #[trigger] (x + "054c"@ + y),
        is_controller_path(path) ==> exists|x: Seq<char>, y: Seq<char>|
            lowercase(path) == #[trigger] (x + "0bb2"@ + y),
{
    let s = lowercase(path);
    if s == a + "054c"@ + b + "0bb2"@ + c {
        assert(s =~= a + "054c"@ + (b + "0bb2"@ + c));
        text::enclosed_text_is_found(a, "054c"@, b + "0bb2"@ + c);
        text::enclosed_text_is_found(a + "054c"@ + b, "0bb2"@, c);
    }
    if s == a + "0bb2"@ + b + "054c"@ + c {
        assert(s =~= a + "0bb2"@ + (b + "054c"@ + c));
        text::enclosed_text_is_found(a, "0bb2"@, b + "054c"@ + c);
        text::enclosed_text_is_found(a + "0bb2"@ + b, "054c"@, c);
    }
    if is_controller_path(path) {
        text::found_text_is_enclosed(s, "054c"@);
        text::found_text_is_enclosed(s, "0bb2"@);
    }
}

/// A listing is read from its start to its end: the paths of two parts, one after the other,
/// are those of the whole, and one device gives at most its own path.
pub proof fn listing_is_read_in_order(a: Seq<Json>, b: Seq<Json>, device: Json)
    ensures
        device_paths(a + b) == device_paths(a) + device_paths(b),
        listing_paths(Json::List(a + b)) == listing_paths(Json::List(a)) + listing_paths(
            Json::List(b),
        ),
        device_paths(seq![device]) == match device_path(device) {
            Some(path) => seq![path],
            None => Seq::empty(),
        },
    decreases b.len(),
{
    reveal_with_fuel(device_paths, 2);
    assert(seq![device].drop_last() =~= Seq::<Json>::empty());
    assert(device_paths(seq![device]) =~= match device_path(device) {
        Some(path) => seq![path],
        None => Seq::empty(),
    });
    if b.len() == 0 {
        assert(a + b =~= a);
        assert(device_paths(a) + device_paths(b) =~= device_paths(a));
        assert(groups_paths(a) + groups_paths(b) =~= groups_paths(a));
    } else {
        let fewer = b.drop_last();
        listing_is_read_in_order(a, fewer, device);
        assert((a + b).drop_last() =~= a + fewer);
        assert((a + b).last() == b.last());
        assert(device_paths(a + b) =~= device_paths(a) + device_paths(b));
        assert(groups_paths(a + b) =~= groups_paths(a) + groups_paths(b));
    }
}

/// A device that is the controller gives its path, and one that is not, or that has no text
/// for a path, gives none; a group without a list of devices gives none either.
pub proof fn entries_are_read(device: Json, group: Json, path: Seq<char>)
    ensures
        member(device, "deviceInstancePath"@) == Some(Json::Text(path)) ==> (device_path(device)
            == Some(path) <==> is_controller_path(path)),
        device_path(device) is Some ==> member(device, "deviceInstancePath"@) == Some(
            Json::Text(device_path(device)->0),
        ),
        group_paths(group).len() > 0 ==> (member(group, "devices"@) matches Some(Json::List(d))
            && d.len() >= group_paths(group).len()),
        !(group is List) ==> listing_paths(group).len() == 0,
{
    match member(group, "devices"@) {
        Some(Json::List(devices)) => {
            lemma_one_path_each(devices);
        },
        _ => {},
    }
}

proof fn lemma_one_path_each(devices: Seq<Json>)
    ensures
        device_paths(devices).len() <= devices.len(),
    decreases devices.len(),
{
    if devices.len() > 0 {
        lemma_one_path_each(devices.drop_last());
    }
}

/// A command that speaks of an error code has failed, on whichever output it does and however
/// it exits; one that exits badly has failed too, and any other has not.
pub proof fn error_codes_are_failures(
    success: bool,
    a: Seq<char>,
    b: Seq<char>,
    other: Seq<char>,
)
    ensures
        !cli_succeeded(success, a + "Error code"@ + b, other),
        !cli_succeeded(success, other, a + "Error code"@ + b),
        !cli_succeeded(false, a, b),
        !cli_succeeded(true, a, b) ==> exists|x: Seq<char>, y: Seq<char>|
            {
                let told = #[trigger] (x + "Error code"@ + y);
                told == a || told == b
            },
{
    text::enclosed_text_is_found(a, "Error code"@, b);
    if text::occurs(a, "Error code"@) {
        text::found_text_is_enclosed(a, "Error code"@);
    }
    if text::occurs(b, "Error code"@) {
        text::found_text_is_enclosed(b, "Error code"@);
    }
}

/// A setup needs a controller, and one is enough; a wipe needs none.
pub proof fn setup_needs_a_controller(paths: Seq<Seq<char>>, path: Seq<char>)
    ensures
        !lacks_controller(Purpose::Wipe, paths),
        !lacks_controller(Purpose::Setup, paths.push(path)),
        lacks_controller(Purpose::Setup, Seq::empty()),
{
}

} // verus!
