//! Session logs and the process list: what they tell of Codex.

use vstd::prelude::*;

use crate::install;
use crate::json;
use crate::status::SessionSignal;
use crate::text;

verus! {

broadcast use vstd::string::group_string_axioms;

/// The parts of the path of the session logs below the directory of the user.
pub fn session_directory_parts() -> (parts: Vec<&'static str>)
    ensures
        install::part_views(parts@) == seq![".codex"@, "sessions"@],
{
    let parts: Vec<&'static str> = vec![".codex", "sessions"];
    proof {
        assert(install::part_views(parts@) =~= seq![".codex"@, "sessions"@]);
    }
    parts
}

/// How many bytes at the end of a session log are read.
pub const TAIL_BYTES: u64 = 65_536;

/// Where the part of a log that is read begins: `TAIL_BYTES` before its end,
/// or at its start where it is shorter.
pub fn tail_start(length: u64) -> (start: u64)
    ensures
        start == tail_start_of(length as nat),
{
    length.saturating_sub(TAIL_BYTES)
}

/// The type of the event on a line: the string under `type` in the object under
/// `payload`.
pub open spec fn event_type_of(line: Seq<char>) -> Option<Seq<char>> {
    match json::json_member(line, "payload"@) {
        None => None,
        Some(payload) => match json::json_member(payload, "type"@) {
            None => None,
            Some(kind) => json::json_string(kind),
        },
    }
}

/// Reads the type of the event on a line of a session log; a line that is no
/// JSON document has none.
pub fn event_type(line: &str) -> (found: Option<String>)
    ensures
        json::optional_view(found) == event_type_of(line@),
        json::json_rejection(line@) is Some ==> found is None,
{
    match json::member(line, "payload") {
        None => None,
        Some(payload) => match json::member(payload.as_str(), "type") {
            None => None,
            Some(kind) => json::string_value(kind.as_str()),
        },
    }
}

/// What an event says: the end of a task, a wait for an approval or for the
/// user, or else activity.
pub open spec fn signal_of(event_type: Seq<char>) -> SessionSignal {
    if event_type == "task_complete"@ {
        SessionSignal::Completed
    } else if event_type == "waitingOnApproval"@ || event_type == "waitingOnUserInput"@ {
        SessionSignal::Waiting
    } else {
        SessionSignal::Activity
    }
}

/// Tells what an event of the given type says.
pub fn signal_for(event_type: &str) -> (signal: SessionSignal)
    ensures
        signal == signal_of(event_type@),
{
    if text::same_text(event_type, "task_complete") {
        SessionSignal::Completed
    } else if text::same_text(event_type, "waitingOnApproval") || text::same_text(
        event_type,
        "waitingOnUserInput",
    ) {
        SessionSignal::Waiting
    } else {
        SessionSignal::Activity
    }
}

/// What the last of a list of events says; lines without an event do not
/// count.
pub open spec fn last_signal_of(types: Seq<Option<Seq<char>>>) -> Option<SessionSignal>
    decreases types.len(),
{
    if types.len() == 0 {
        None
    } else {
        match types.last() {
            Some(event_type) => Some(signal_of(event_type)),
            None => last_signal_of(types.drop_last()),
        }
    }
}

/// The contents of a list of optional texts.
pub open spec fn optional_views(texts: Seq<Option<String>>) -> Seq<Option<Seq<char>>> {
    texts.map_values(|text: Option<String>| json::optional_view(text))
}

/// Tells what the last of a list of events says.
pub fn last_signal(types: &Vec<Option<String>>) -> (signal: Option<SessionSignal>)
    ensures
        signal == last_signal_of(optional_views(types@)),
{
    let mut end: usize = types.len();
    proof {
        assert(optional_views(types@).take(end as int) =~= optional_views(types@));
    }
    while end > 0
        invariant
            end <= types.len(),
            last_signal_of(optional_views(types@)) == last_signal_of(
                optional_views(types@).take(end as int),
            ),
        decreases end,
    {
        let ghost seen = optional_views(types@).take(end as int);
        proof {
            assert(seen.last() == json::optional_view(types@[end - 1]));
            assert(seen.drop_last() =~= optional_views(types@).take(end - 1));
        }
        if let Some(event_type) = &types[end - 1] {
            return Some(signal_for(event_type.as_str()));
        }
        end = end - 1;
    }
    None
}

/// What the tail of a session log says: its last event with a type decides.
pub open spec fn session_signal_of(tail: Seq<char>) -> Option<SessionSignal> {
    last_signal_of(text::lines(tail).map_values(|line: Seq<char>| event_type_of(line)))
}

/// Tells what the tail of a session log says; a line that is no JSON document
/// has no event.
pub fn last_session_signal(tail: &str) -> (signal: Option<SessionSignal>)
    ensures
        signal == session_signal_of(tail@),
        forall|i: int|
            0 <= i < text::lines(tail@).len() && json::json_rejection(
                #[trigger] text::lines(tail@)[i],
            ) is Some ==> event_type_of(text::lines(tail@)[i]) is None,
{
    let lines = text::split_lines(tail);
    let mut types: Vec<Option<String>> = Vec::new();
    let mut i: usize = 0;
    while i < lines.len()
        invariant
            i <= lines.len(),
            types.len() == i,
            forall|j: int|
                0 <= j < i ==> json::optional_view(#[trigger] types@[j]) == event_type_of(
                    lines@[j]@,
                ),
            forall|j: int|
                0 <= j < i && json::json_rejection((#[trigger] lines@[j])@) is Some
                    ==> event_type_of(lines@[j]@) is None,
        decreases lines.len() - i,
    {
        types.push(event_type(lines[i].as_str()));
        i = i + 1;
    }
    proof {
        assert(text::views(lines@).len() == lines.len());
        assert forall|j: int| 0 <= j < lines.len() implies text::lines(tail@)[j]
            == lines@[j]@ by {
            assert(text::views(lines@)[j] == lines@[j]@);
        }
        assert(optional_views(types@) =~= text::lines(tail@).map_values(
            |line: Seq<char>| event_type_of(line),
        ));
    }
    last_signal(&types)
}

/// Lines without an event, put behind a list of events, change nothing: a
/// line that is still being written does not hide what came before it.
pub proof fn law_trailing_lines_without_event_do_not_count(
    types: Seq<Option<Seq<char>>>,
    trailing: nat,
)
    ensures
        last_signal_of(types + Seq::new(trailing, |i: int| None)) == last_signal_of(types),
    decreases trailing,
{
    let all = types + Seq::new(trailing, |i: int| None::<Seq<char>>);
    if trailing == 0 {
        assert(all =~= types);
    } else {
        let fewer = (trailing - 1) as nat;
        assert(all.drop_last() =~= types + Seq::new(fewer, |i: int| None::<Seq<char>>));
        law_trailing_lines_without_event_do_not_count(types, fewer);
    }
}

/// The last event alone decides, whatever came before it.
pub proof fn law_last_event_decides(earlier: Seq<Option<Seq<char>>>, event_type: Seq<char>)
    ensures
        last_signal_of(earlier.push(Some(event_type))) == Some(signal_of(event_type)),
{
}

/// An event that is written behind a log of complete lines decides what the
/// log says; a line without an event leaves that as it was.
pub proof fn law_appended_line_decides(tail: Seq<char>, line: Seq<char>)
    requires
        tail.len() > 0 ==> tail.last() == '\n',
        !line.contains('\n'),
    ensures
        session_signal_of(tail + line.push('\n')) == match event_type_of(
            text::without_return(line),
        ) {
            Some(event_type) => Some(signal_of(event_type)),
            None => session_signal_of(tail),
        },
{
    let kind = |line: Seq<char>| event_type_of(line);
    text::law_lines_are_appended(tail, line.push('\n'));
    text::law_one_line(line);
    let types = text::lines(tail).map_values(kind);
    let all = text::lines(tail + line.push('\n')).map_values(kind);
    assert(all =~= types.push(event_type_of(text::without_return(line))));
    assert(all.drop_last() =~= types);
}

/// A file below the session directory.
#[derive(Debug, PartialEq)]
pub struct SessionFile {
    /// The extension of its name, if it has one.
    pub extension: Option<String>,
    /// When it was last written, in nanoseconds from any fixed moment, if that
    /// can be told.
    pub modified: Option<i128>,
}

impl SessionFile {
    /// A session log whose time of writing is known.
    pub open spec fn is_dated_log(self) -> bool {
        json::optional_view(self.extension) == Some("jsonl"@) && self.modified is Some
    }

    /// Tells when a session log was written; other files have no such time.
    fn log_time(&self) -> (time: Option<i128>)
        ensures
            time is Some == self.is_dated_log(),
            time is Some ==> time == self.modified,
    {
        match &self.extension {
            None => None,
            Some(extension) => if text::same_text(extension.as_str(), "jsonl") {
                self.modified
            } else {
                None
            },
        }
    }
}

/// Whether a place is that of the log that was written last, and the first of
/// those written at the same time.
pub open spec fn is_newest(newest: Option<usize>, files: Seq<SessionFile>) -> bool {
    match newest {
        None => forall|i: int| 0 <= i < files.len() ==> !(#[trigger] files[i]).is_dated_log(),
        Some(found) => {
            &&& found < files.len()
            &&& files[found as int].is_dated_log()
            &&& forall|i: int|
                0 <= i < files.len() && (#[trigger] files[i]).is_dated_log()
                    ==> files[i].modified->0 <= files[found as int].modified->0
            &&& forall|i: int|
                0 <= i < found && (#[trigger] files[i]).is_dated_log() ==> files[i].modified->0
                    < files[found as int].modified->0
        },
    }
}

/// Finds the session log that was written last; of several written at the same
/// time, the first in the list.
pub fn newest_session_file(files: &Vec<SessionFile>) -> (newest: Option<usize>)
    ensures
        is_newest(newest, files@),
{
    let mut newest: Option<(i128, usize)> = None;
    let mut i: usize = 0;
    while i < files.len()
        invariant
            i <= files.len(),
            match newest {
                None => forall|j: int| 0 <= j < i ==> !(#[trigger] files@[j]).is_dated_log(),
                Some((time, found)) => {
                    &&& found < i
                    &&& files@[found as int].is_dated_log()
                    &&& files@[found as int].modified == Some(time)
                    &&& forall|j: int|
                        0 <= j < i && (#[trigger] files@[j]).is_dated_log()
                            ==> files@[j].modified->0 <= time
                    &&& forall|j: int|
                        0 <= j < found && (#[trigger] files@[j]).is_dated_log()
                            ==> files@[j].modified->0 < time
                },
            },
        decreases files.len() - i,
    {
        if let Some(modified) = files[i].log_time() {
            let newer: bool = match newest {
                None => true,
                Some((time, _)) => modified > time,
            };
            if newer {
                newest = Some((modified, i));
            }
        }
        i = i + 1;
    }
    match newest {
        None => None,
        Some((_, found)) => Some(found),
    }
}

/// An ASCII letter in lower case; any other byte as it is.
pub open spec fn ascii_lower(byte: u8) -> u8 {
    if 65 <= byte <= 90 {
        (byte + 32) as u8
    } else {
        byte
    }
}

/// Whether `name` stands in `listing` at `position`, in whatever case.
pub open spec fn stands_at(listing: Seq<u8>, name: Seq<char>, position: int) -> bool {
    &&& 0 <= position
    &&& position + name.len() <= listing.len()
    &&& forall|k: int|
        0 <= k < name.len() ==> ascii_lower(#[trigger] listing[position + k]) == name[k] as u8
}

/// Whether a process list names the Codex executable, in whatever case.
pub open spec fn lists_codex(listing: Seq<u8>) -> bool {
    exists|position: int| #[trigger] stands_at(listing, "codex.exe"@, position)
}

fn name_stands_at(listing: &[u8], name: &str, position: usize) -> (answer: bool)
    requires
        name.is_ascii(),
        position + name@.len() <= listing.len(),
    ensures
        answer == stands_at(listing@, name@, position as int),
{
    let length: usize = name.unicode_len();
    let mut k: usize = 0;
    while k < length
        invariant
            name.is_ascii(),
            length == name@.len(),
            position + length <= listing.len(),
            k <= length,
            forall|j: int|
                0 <= j < k ==> ascii_lower(#[trigger] listing@[position + j]) == name@[j] as u8,
        decreases length - k,
    {
        let byte: u8 = listing[position + k];
        let lower: u8 = if 65 <= byte && byte <= 90 {
            byte + 32
        } else {
            byte
        };
        if lower != name.get_ascii(k) {
            proof {
                assert(ascii_lower(listing@[position + k]) != name@[k as int] as u8);
            }
            return false;
        }
        k = k + 1;
    }
    true
}

/// Tells whether the output of the process lister names the Codex executable.
pub fn lists_codex_process(listing: &[u8]) -> (answer: bool)
    ensures
        answer == lists_codex(listing@),
{
    let name = "codex.exe";
    proof {
        reveal_strlit("codex.exe");
    }
    let length: usize = name.unicode_len();
    if listing.len() < length {
        proof {
            assert forall|p: int| !#[trigger] stands_at(listing@, name@, p) by {}
        }
        return false;
    }
    let last: usize = listing.len() - length;
    let mut position: usize = 0;
    while position <= last
        invariant
            name@ == "codex.exe"@,
            name.is_ascii(),
            length == name@.len(),
            last + length == listing.len(),
            length > 0,
            position <= last + 1,
            forall|p: int| 0 <= p < position ==> !#[trigger] stands_at(listing@, name@, p),
        decreases last + 1 - position,
    {
        if name_stands_at(listing, name, position) {
            return true;
        }
        position = position + 1;
    }
    proof {
        assert forall|p: int| !#[trigger] stands_at(listing@, name@, p) by {
            if p >= position {
                assert(p + name@.len() > listing@.len());
            }
        }
    }
    false
}

/// A completed task and the two kinds of waiting are told by their names; every
/// other event is activity.
pub proof fn law_events_are_told_by_name(event_type: Seq<char>)
    ensures
        signal_of(event_type) == SessionSignal::Completed <==> event_type == "task_complete"@,
        signal_of(event_type) == SessionSignal::Waiting <==> event_type == "waitingOnApproval"@
            || event_type == "waitingOnUserInput"@,
        signal_of(event_type) == SessionSignal::Activity <==> event_type != "task_complete"@
            && event_type != "waitingOnApproval"@ && event_type != "waitingOnUserInput"@,
{
    reveal_strlit("task_complete");
    reveal_strlit("waitingOnApproval");
    reveal_strlit("waitingOnUserInput");
    assert("task_complete"@[0] != "waitingOnApproval"@[0]);
    assert("task_complete"@[0] != "waitingOnUserInput"@[0]);
}

/// Events without any type say nothing; else the last that has one speaks, and
/// all those behind it have none.
pub proof fn law_last_typed_event_speaks(types: Seq<Option<Seq<char>>>, last: int)
    ensures
        (forall|i: int| 0 <= i < types.len() ==> (#[trigger] types[i]) is None) ==> last_signal_of(
            types,
        ) is None,
        0 <= last < types.len() && types[last] is Some && (forall|i: int|
            last < i < types.len() ==> (#[trigger] types[i]) is None) ==> last_signal_of(types)
            == Some(signal_of(types[last]->0)),
    decreases types.len(),
{
    if types.len() > 0 {
        let earlier = types.drop_last();
        law_last_typed_event_speaks(earlier, last);
        if types.last() is None {
            assert forall|i: int| 0 <= i < earlier.len() implies earlier[i] == types[i] by {}
        } else {
            assert(types[types.len() - 1] is Some);
        }
    }
}

/// The type of an event is the string under `type` in what stands under
/// `payload`, and a line that lacks any of it has none.
pub proof fn law_type_stands_in_the_payload(line: Seq<char>, event_type: Seq<char>)
    ensures
        event_type_of(line) == Some(event_type) <==> (json::json_member(line, "payload"@) matches Some(
            payload,
        ) && (json::json_member(payload, "type"@) matches Some(kind) && json::json_string(kind)
            == Some(event_type))),
{
}

/// A log speaks by its lines: what it says is what the last line with an event
/// says.
pub proof fn law_log_speaks_by_its_last_event(tail: Seq<char>, last: int)
    requires
        0 <= last < text::lines(tail).len(),
        event_type_of(text::lines(tail)[last]) is Some,
        forall|i: int|
            last < i < text::lines(tail).len() ==> event_type_of(
                #[trigger] text::lines(tail)[i],
            ) is None,
    ensures
        session_signal_of(tail) == Some(signal_of(event_type_of(text::lines(tail)[last])->0)),
{
    let types = text::lines(tail).map_values(|line: Seq<char>| event_type_of(line));
    assert forall|i: int| last < i < types.len() implies (#[trigger] types[i]) is None by {
        assert(types[i] == event_type_of(text::lines(tail)[i]));
    }
    law_last_typed_event_speaks(types, last);
}

/// A log without any event says nothing.
pub proof fn law_log_without_events_is_silent(tail: Seq<char>)
    requires
        forall|i: int|
            0 <= i < text::lines(tail).len() ==> event_type_of(
                #[trigger] text::lines(tail)[i],
            ) is None,
    ensures
        session_signal_of(tail) is None,
{
    let types = text::lines(tail).map_values(|line: Seq<char>| event_type_of(line));
    assert forall|i: int| 0 <= i < types.len() implies (#[trigger] types[i]) is None by {
        assert(types[i] == event_type_of(text::lines(tail)[i]));
    }
    law_last_typed_event_speaks(types, 0);
}

/// The bytes of the name of the Codex executable.
pub open spec fn codex_bytes() -> Seq<u8> {
    seq![99u8, 111, 100, 101, 120, 46, 101, 120, 101]
}

/// Whether two bytes are the same but for the case of a letter.
pub open spec fn same_but_for_case(byte: u8, lower: u8) -> bool {
    byte == lower || (97 <= lower <= 122 && byte == lower - 32)
}

/// A listing names Codex exactly where nine bytes in a row spell its executable,
/// in whatever case, with anything before and behind.
pub proof fn law_listing_names_codex(listing: Seq<u8>)
    ensures
        lists_codex(listing) <==> exists|position: int| #[trigger] spelled_at(listing, position),
{
    reveal_strlit("codex.exe");
    let name = "codex.exe"@;
    let bytes = codex_bytes();
    assert(name.len() == 9 && bytes.len() == 9);
    assert forall|k: int| 0 <= k < 9 implies name[k] as u8 == #[trigger] bytes[k] by {}
    assert forall|position: int|
        #[trigger] spelled_at(listing, position) <==> stands_at(listing, name, position) by {
        if spelled_at(listing, position) {
            assert forall|k: int| 0 <= k < name.len() implies ascii_lower(
                #[trigger] listing[position + k],
            ) == name[k] as u8 by {
                assert(same_but_for_case(listing[position + k], bytes[k]));
            }
        }
        if stands_at(listing, name, position) {
            assert forall|k: int| 0 <= k < 9 implies same_but_for_case(
                #[trigger] listing[position + k],
                bytes[k],
            ) by {
                assert(ascii_lower(listing[position + k]) == name[k] as u8);
            }
        }
    }
    if lists_codex(listing) {
        let position = choose|position: int| #[trigger] stands_at(listing, name, position);
        assert(spelled_at(listing, position));
    }
    if exists|position: int| #[trigger] spelled_at(listing, position) {
        let position = choose|position: int| #[trigger] spelled_at(listing, position);
        assert(stands_at(listing, name, position));
    }
}

/// Whether the name of the executable is spelled at a position, in whatever case.
pub open spec fn spelled_at(listing: Seq<u8>, position: int) -> bool {
    &&& 0 <= position
    &&& position + 9 <= listing.len()
    &&& forall|k: int|
        0 <= k < 9 ==> same_but_for_case(#[trigger] listing[position + k], codex_bytes()[k])
}

/// Where the tail of a log of a given length begins.
pub open spec fn tail_start_of(length: nat) -> nat {
    if length < TAIL_BYTES {
        0
    } else {
        (length - TAIL_BYTES) as nat
    }
}

/// The tail of a log is its last 64 kilobytes, or all of it where it is shorter.
pub proof fn law_tail_is_the_end(length: nat)
    ensures
        tail_start_of(length) <= length,
        length - tail_start_of(length) == if length <= 65_536 {
            length as int
        } else {
            65_536
        },
{
}

/// A file is a log exactly by its extension, and counts where its time is known.
pub proof fn law_logs_are_told_by_extension(file: SessionFile)
    ensures
        file.is_dated_log() <==> file.modified is Some && (file.extension matches Some(extension)
            && extension@ == "jsonl"@),
{
}

/// A log is found exactly where there is one; no other log was written later
/// than the one found, and none before it in the list at the same time.
pub proof fn law_found_log_is_the_newest(
    newest: Option<usize>,
    files: Seq<SessionFile>,
    i: int,
)
    requires
        is_newest(newest, files),
        0 <= i < files.len(),
        files[i].is_dated_log(),
    ensures
        newest matches Some(found) && found < files.len() && files[found as int].is_dated_log() && (
        files[i].modified->0 < files[found as int].modified->0 || (files[i].modified->0
            == files[found as int].modified->0 && found <= i)),
{
}

/// There is only one such log.
pub proof fn law_newest_log_is_unique(
    one: Option<usize>,
    other: Option<usize>,
    files: Seq<SessionFile>,
)
    requires
        is_newest(one, files),
        is_newest(other, files),
    ensures
        one == other,
{
    if let Some(i) = one {
        law_found_log_is_the_newest(other, files, i as int);
    }
    if let Some(j) = other {
        law_found_log_is_the_newest(one, files, j as int);
    }
}

} // verus!
