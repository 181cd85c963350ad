use vstd::prelude::*;

use crate::hex::{hex_id, parse_hex_id};

verus! {

/// A notification pushed by the window manager on its event socket.
#[derive(Clone, Debug, PartialEq, Eq)]
pub enum Event {
    WorkspaceV2 { id: usize, name: String },
    ActiveWindow { class: String, title: String },
    Fullscreen { status: bool },
    CreateWorkspaceV2 { id: usize, name: String },
    DestroyWorkspaceV2 { id: usize, name: String },
    RenameWorkspace { id: usize, new_name: String },
    ActiveLayout { name: String, layout: String },
}

/// What an [`Event`] says, with its text as character sequences.
pub enum EventModel {
    WorkspaceV2 { id: usize, name: Seq<char> },
    ActiveWindow { class: Seq<char>, title: Seq<char> },
    Fullscreen { status: bool },
    CreateWorkspaceV2 { id: usize, name: Seq<char> },
    DestroyWorkspaceV2 { id: usize, name: Seq<char> },
    RenameWorkspace { id: usize, new_name: Seq<char> },
    ActiveLayout { name: Seq<char>, layout: Seq<char> },
}

impl View for Event {
    type V = EventModel;

    open spec fn view(&self) -> EventModel {
        match self {
            Event::WorkspaceV2 { id, name } => EventModel::WorkspaceV2 { id: *id, name: name@ },
            Event::ActiveWindow { class, title } => EventModel::ActiveWindow {
                class: class@,
                title: title@,
            },
            Event::Fullscreen { status } => EventModel::Fullscreen { status: *status },
            Event::CreateWorkspaceV2 { id, name } => EventModel::CreateWorkspaceV2 {
                id: *id,
                name: name@,
            },
            Event::DestroyWorkspaceV2 { id, name } => EventModel::DestroyWorkspaceV2 {
                id: *id,
                name: name@,
            },
            Event::RenameWorkspace { id, new_name } => EventModel::RenameWorkspace {
                id: *id,
                new_name: new_name@,
            },
            Event::ActiveLayout { name, layout } => EventModel::ActiveLayout {
                name: name@,
                layout: layout@,
            },
        }
    }
}

/// Why a line did not decode into an [`Event`].
#[derive(Clone, Copy, Debug, PartialEq, Eq, Structural)]
pub enum DecodeError {
    /// The event name is not one of those this codec knows.
    UnknownEvent,
    /// The `>>` separator, a field, or a hexadecimal id is missing or wrong.
    Malformed,
}

/// `>>` starts at position `i` of `s`.
pub open spec fn sep_at(s: Seq<char>, i: int) -> bool {
    0 <= i && i + 1 < s.len() && s[i] == '>' && s[i + 1] == '>'
}

/// `i` is where the first `>>` of `s` starts.
pub open spec fn is_first_sep(s: Seq<char>, i: int) -> bool {
    sep_at(s, i) && forall|j: int| 0 <= j < i ==> !#[trigger] sep_at(s, j)
}

/// `i` is the position of the first comma of `s`.
pub open spec fn is_first_comma(s: Seq<char>, i: int) -> bool {
    0 <= i < s.len() && s[i] == ',' && forall|j: int| 0 <= j < i ==> s[j] != ','
}

/// The two fields of an event body: the text before its first comma and
/// all the text after it, commas included.
pub open spec fn split_fields(data: Seq<char>) -> Option<(Seq<char>, Seq<char>)> {
    if exists|i: int| is_first_comma(data, i) {
        let i = choose|i: int| is_first_comma(data, i);
        Some((data.subrange(0, i), data.subrange(i + 1, data.len() as int)))
    } else {
        None
    }
}

/// A body whose first field is a hexadecimal id.
pub open spec fn id_fields(data: Seq<char>) -> Option<(usize, Seq<char>)> {
    match split_fields(data) {
        Some((a, b)) => match hex_id(a) {
            Some(id) => Some((id, b)),
            None => None,
        },
        None => None,
    }
}

/// The event that a body encodes under a given event name.
pub open spec fn decode_body(name: Seq<char>, data: Seq<char>) -> Result<EventModel, DecodeError> {
    if name == "workspacev2"@ {
        match id_fields(data) {
            Some((id, t)) => Ok(EventModel::WorkspaceV2 { id, name: t }),
            None => Err(DecodeError::Malformed),
        }
    } else if name == "activewindow"@ {
        match split_fields(data) {
            Some((a, b)) => Ok(EventModel::ActiveWindow { class: a, title: b }),
            None => Err(DecodeError::Malformed),
        }
    } else if name == "createworkspacev2"@ {
        match id_fields(data) {
            Some((id, t)) => Ok(EventModel::CreateWorkspaceV2 { id, name: t }),
            None => Err(DecodeError::Malformed),
        }
    } else if name == "destroyworkspacev2"@ {
        match id_fields(data) {
            Some((id, t)) => Ok(EventModel::DestroyWorkspaceV2 { id, name: t }),
            None => Err(DecodeError::Malformed),
        }
    } else if name == "renameworkspace"@ {
        match id_fields(data) {
            Some((id, t)) => Ok(EventModel::RenameWorkspace { id, new_name: t }),
            None => Err(DecodeError::Malformed),
        }
    } else if name == "activelayout"@ {
        match split_fields(data) {
            Some((a, b)) => Ok(EventModel::ActiveLayout { name: a, layout: b }),
            None => Err(DecodeError::Malformed),
        }
    } else {
        Err(DecodeError::UnknownEvent)
    }
}

/// The event that one line encodes: `<name>>><body>`, split at the first `>>`.
pub open spec fn decode(line: Seq<char>) -> Result<EventModel, DecodeError> {
    if exists|i: int| is_first_sep(line, i) {
        let i = choose|i: int| is_first_sep(line, i);
        decode_body(line.subrange(0, i), line.subrange(i + 2, line.len() as int))
    } else {
        Err(DecodeError::Malformed)
    }
}

/// The view of a decoding result.
pub open spec fn decoded_view(r: Result<Event, DecodeError>) -> Result<EventModel, DecodeError> {
    match r {
        Ok(e) => Ok(e@),
        Err(d) => Err(d),
    }
}

/// The line that carries two fields under an event name.
pub open spec fn event_line(name: Seq<char>, a: Seq<char>, b: Seq<char>) -> Seq<char> {
    name + ">>"@ + a + ","@ + b
}

pub open spec fn has_no_comma(s: Seq<char>) -> bool {
    forall|i: int| 0 <= i < s.len() ==> s[i] != ','
}

pub open spec fn has_no_angle(s: Seq<char>) -> bool {
    forall|i: int| 0 <= i < s.len() ==> s[i] != '>'
}

/// The event names that [`decode`] knows.
pub open spec fn is_known_name(name: Seq<char>) -> bool {
    name == "workspacev2"@ || name == "activewindow"@ || name == "createworkspacev2"@
        || name == "destroyworkspacev2"@ || name == "renameworkspace"@ || name == "activelayout"@
}

/// A line made of a name without `>`, the separator and a body decodes as
/// that body under that name.
proof fn lemma_decode_event_line(name: Seq<char>, data: Seq<char>)
    requires
        has_no_angle(name),
    ensures
        decode(name + ">>"@ + data) == decode_body(name, data),
{
    reveal_strlit(">>");
    let line = name + ">>"@ + data;
    let k = name.len() as int;
    assert(sep_at(line, k));
    assert forall|j: int| 0 <= j < k implies !#[trigger] sep_at(line, j) by {
        assert(line[j] == name[j]);
    }
    assert(is_first_sep(line, k));
    let i = choose|i: int| is_first_sep(line, i);
    if i < k {
        assert(sep_at(line, i));
    } else if k < i {
        assert(sep_at(line, k));
    }
    assert(line.subrange(0, k) =~= name);
    assert(line.subrange(k + 2, line.len() as int) =~= data);
}

/// A body whose first field has no comma splits at the comma that follows it.
proof fn lemma_split_fields(a: Seq<char>, b: Seq<char>)
    requires
        has_no_comma(a),
    ensures
        split_fields(a + ","@ + b) == Some((a, b)),
{
    reveal_strlit(",");
    let data = a + ","@ + b;
    let k = a.len() as int;
    assert(is_first_comma(data, k));
    let i = choose|i: int| is_first_comma(data, i);
    if i < k {
        assert(data[i] == a[i]);
    } else if k < i {
        assert(data[k] == ',');
    }
    assert(data.subrange(0, k) =~= a);
    assert(data.subrange(k + 1, data.len() as int) =~= b);
}

proof fn lemma_known_names()
    ensures
        has_no_angle("workspacev2"@),
        has_no_angle("activewindow"@),
        has_no_angle("createworkspacev2"@),
        has_no_angle("destroyworkspacev2"@),
        has_no_angle("renameworkspace"@),
        has_no_angle("activelayout"@),
        "activewindow"@ != "workspacev2"@,
        "createworkspacev2"@ != "workspacev2"@,
        "createworkspacev2"@ != "activewindow"@,
        "destroyworkspacev2"@ != "workspacev2"@,
        "destroyworkspacev2"@ != "activewindow"@,
        "destroyworkspacev2"@ != "createworkspacev2"@,
        "renameworkspace"@ != "workspacev2"@,
        "renameworkspace"@ != "activewindow"@,
        "renameworkspace"@ != "createworkspacev2"@,
        "renameworkspace"@ != "destroyworkspacev2"@,
        "activelayout"@ != "workspacev2"@,
        "activelayout"@ != "activewindow"@,
        "activelayout"@ != "createworkspacev2"@,
        "activelayout"@ != "destroyworkspacev2"@,
        "activelayout"@ != "renameworkspace"@,
{
    reveal_strlit("workspacev2");
    reveal_strlit("activewindow");
    reveal_strlit("createworkspacev2");
    reveal_strlit("destroyworkspacev2");
    reveal_strlit("renameworkspace");
    reveal_strlit("activelayout");
    assert("activelayout"@[6] != "activewindow"@[6]);
}

/// Every known event kind gives back exactly the fields it was written with:
/// the text fields as they stand (the second may hold commas), the ids as
/// the hexadecimal numbers they spell.
pub proof fn parse_round_trip(a: Seq<char>, b: Seq<char>)
    requires
        has_no_comma(a),
    ensures
        decode(event_line("activewindow"@, a, b)) == Ok::<EventModel, DecodeError>(
            EventModel::ActiveWindow { class: a, title: b },
        ),
        decode(event_line("activelayout"@, a, b)) == Ok::<EventModel, DecodeError>(
            EventModel::ActiveLayout { name: a, layout: b },
        ),
        hex_id(a) matches Some(id) ==> decode(event_line("workspacev2"@, a, b)) == Ok::<
            EventModel,
            DecodeError,
        >(EventModel::WorkspaceV2 { id, name: b }),
        hex_id(a) matches Some(id) ==> decode(event_line("createworkspacev2"@, a, b)) == Ok::<
            EventModel,
            DecodeError,
        >(EventModel::CreateWorkspaceV2 { id, name: b }),
        hex_id(a) matches Some(id) ==> decode(event_line("destroyworkspacev2"@, a, b)) == Ok::<
            EventModel,
            DecodeError,
        >(EventModel::DestroyWorkspaceV2 { id, name: b }),
        hex_id(a) matches Some(id) ==> decode(event_line("renameworkspace"@, a, b)) == Ok::<
            EventModel,
            DecodeError,
        >(EventModel::RenameWorkspace { id, new_name: b }),
        hex_id(a) is None ==> decode(event_line("workspacev2"@, a, b)) == Err::<
            EventModel,
            DecodeError,
        >(DecodeError::Malformed),
{
    lemma_known_names();
    lemma_split_fields(a, b);
    let data = a + ","@ + b;
    assert forall|name: Seq<char>| has_no_angle(name) implies event_line(name, a, b) == name
        + ">>"@ + data by {
        assert(event_line(name, a, b) =~= name + ">>"@ + data);
    }
    lemma_decode_event_line("activewindow"@, data);
    lemma_decode_event_line("activelayout"@, data);
    lemma_decode_event_line("workspacev2"@, data);
    lemma_decode_event_line("createworkspacev2"@, data);
    lemma_decode_event_line("destroyworkspacev2"@, data);
    lemma_decode_event_line("renameworkspace"@, data);
}

/// A line whose event name is not a known one is rejected as unknown,
/// whatever its body.
pub proof fn parse_unknown_name(name: Seq<char>, data: Seq<char>)
    requires
        has_no_angle(name),
        !is_known_name(name),
    ensures
        decode(name + ">>"@ + data) == Err::<EventModel, DecodeError>(DecodeError::UnknownEvent),
{
    lemma_decode_event_line(name, data);
}

/// A line without the `>>` separator is malformed.
pub proof fn parse_without_separator(line: Seq<char>)
    requires
        forall|i: int| !#[trigger] sep_at(line, i),
    ensures
        decode(line) == Err::<EventModel, DecodeError>(DecodeError::Malformed),
{
}

fn find_separator(s: &str) -> (r: Option<usize>)
    ensures
        r matches Some(i) ==> is_first_sep(s@, i as int),
        r is None ==> forall|i: int| !#[trigger] sep_at(s@, i),
{
    let n = s.unicode_len();
    let mut i: usize = 0;
    while i < n
        invariant
            n == s@.len(),
            i <= n,
            forall|j: int| 0 <= j < i ==> !#[trigger] sep_at(s@, j),
        decreases n - i,
    {
        if i + 1 < n && s.get_char(i) == '>' && s.get_char(i + 1) == '>' {
            return Some(i);
        }
        i = i + 1;
    }
    None
}

fn find_comma(s: &str) -> (r: Option<usize>)
    ensures
        r matches Some(i) ==> is_first_comma(s@, i as int),
        r is None ==> forall|i: int| 0 <= i < s@.len() ==> s@[i] != ',',
{
    let n = s.unicode_len();
    let mut i: usize = 0;
    while i < n
        invariant
            n == s@.len(),
            i <= n,
            forall|j: int| 0 <= j < i ==> s@[j] != ',',
        decreases n - i,
    {
        if s.get_char(i) == ',' {
            return Some(i);
        }
        i = i + 1;
    }
    None
}

pub(crate) fn same_text(a: &str, b: &str) -> (r: bool)
    ensures
        r == (a@ == b@),
{
    let n = a.unicode_len();
    if n != b.unicode_len() {
        return false;
    }
    let mut i: usize = 0;
    while i < n
        invariant
            n == a@.len(),
            n == b@.len(),
            i <= n,
            forall|j: int| 0 <= j < i ==> a@[j] == b@[j],
        decreases n - i,
    {
        if a.get_char(i) != b.get_char(i) {
            return false;
        }
        i = i + 1;
    }
    assert(a@ =~= b@);
    true
}

/// The two fields of an event body, as [`split_fields`] gives them.
fn split_body(data: &str) -> (r: Option<(String, String)>)
    ensures
        match r {
            Some((a, b)) => split_fields(data@) == Some((a@, b@)),
            None => split_fields(data@) is None,
        },
{
    match find_comma(data) {
        Some(i) => {
            proof {
                assert forall|j: int| is_first_comma(data@, j) implies j == i as int by {
                    if j < i {
                        assert(data@[j] == ',');
                    } else if i < j {
                        assert(data@[i as int] == ',');
                    }
                }
            }
            let n = data.unicode_len();
            let a = String::from_str(data.substring_char(0, i));
            let b = String::from_str(data.substring_char(i + 1, n));
            Some((a, b))
        },
        None => {
            assert(!exists|j: int| is_first_comma(data@, j));
            None
        },
    }
}

/// An event body whose first field is a hexadecimal id.
fn split_id_body(data: &str) -> (r: Option<(usize, String)>)
    ensures
        match r {
            Some((id, t)) => id_fields(data@) == Some((id, t@)),
            None => id_fields(data@) is None,
        },
{
    match split_body(data) {
        Some((a, b)) => match parse_hex_id(a.as_str()) {
            Some(id) => Some((id, b)),
            None => None,
        },
        None => None,
    }
}

impl Event {
    /// Decodes one line of the event socket, its newline already stripped.
    pub fn new(value: &str) -> (r: Result<Event, DecodeError>)
        ensures
            decoded_view(r) == decode(value@),
    {
        let i = match find_separator(value) {
            Some(i) => i,
            None => {
                assert(!exists|j: int| is_first_sep(value@, j));
                return Err(DecodeError::Malformed);
            },
        };
        proof {
            assert forall|j: int| is_first_sep(value@, j) implies j == i as int by {
                if j < i {
                    assert(sep_at(value@, j));
                } else if i < j {
                    assert(sep_at(value@, i as int));
                }
            }
        }
        let n = value.unicode_len();
        let name = value.substring_char(0, i);
        let data = value.substring_char(i + 2, n);
        if same_text(name, "workspacev2") {
            match split_id_body(data) {
                Some((id, t)) => Ok(Event::WorkspaceV2 { id, name: t }),
                None => Err(DecodeError::Malformed),
            }
        } else if same_text(name, "activewindow") {
            match split_body(data) {
                Some((a, b)) => Ok(Event::ActiveWindow { class: a, title: b }),
                None => Err(DecodeError::Malformed),
            }
        } else if same_text(name, "createworkspacev2") {
            match split_id_body(data) {
                Some((id, t)) => Ok(Event::CreateWorkspaceV2 { id, name: t }),
                None => Err(DecodeError::Malformed),
            }
        } else if same_text(name, "destroyworkspacev2") {
            match split_id_body(data) {
                Some((id, t)) => Ok(Event::DestroyWorkspaceV2 { id, name: t }),
                None => Err(DecodeError::Malformed),
            }
        } else if same_text(name, "renameworkspace") {
            match split_id_body(data) {
                Some((id, t)) => Ok(Event::RenameWorkspace { id, new_name: t }),
                None => Err(DecodeError::Malformed),
            }
        } else if same_text(name, "activelayout") {
            match split_body(data) {
                Some((a, b)) => Ok(Event::ActiveLayout { name: a, layout: b }),
                None => Err(DecodeError::Malformed),
            }
        } else {
            Err(DecodeError::UnknownEvent)
        }
    }
}

} // verus!
