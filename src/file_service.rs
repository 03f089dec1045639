//! Directory listings of the controller's file service.
use vstd::prelude::*;
use crate::envelope::{DecodeError, Envelope, ErrorStatus, is_missing_state};
use crate::text::{read_usize, same_text, text_false, text_true, unsigned_text_value};

verus! {

/// A storage device.
#[derive(Clone, Debug, PartialEq, Eq)]
pub struct Device {
    pub name: String,
    pub device_type: String,
    pub free_space: usize,
    pub total_space: usize,
    pub enabled: bool,
    pub read_only: bool,
}

/// A directory.
#[derive(Clone, Debug, PartialEq, Eq)]
pub struct Directory {
    pub name: String,
}

/// A file.
#[derive(Clone, Debug, PartialEq, Eq)]
pub struct File {
    pub name: String,
    pub cdate: String,
    pub mdate: String,
    pub size: usize,
    pub read_only: bool,
}

/// One entry of a directory listing.
#[derive(Clone, Debug, PartialEq, Eq)]
pub enum DirEntry {
    Directory(Directory),
    File(File),
    Device(Device),
}

/// A count as the wire carries it: a JSON integer, or its decimal text.
pub enum WireCount {
    Unsigned(u64),
    Signed(i64),
    Text(String),
}

/// A flag as the wire carries it: a JSON boolean, or its text.
pub enum WireFlag {
    Native(bool),
    Text(String),
}

/// A listing record as the wire carries it; `entry_type` is the `_type` tag.
pub struct RawDirEntry {
    pub entry_type: Option<String>,
    pub title: Option<String>,
    pub device_type: Option<String>,
    pub free_space: Option<WireCount>,
    pub total_space: Option<WireCount>,
    pub enabled: Option<WireFlag>,
    pub read_only: Option<WireFlag>,
    pub cdate: Option<String>,
    pub mdate: Option<String>,
    pub size: Option<WireCount>,
}

/// The count a wire value stands for: a native integer that fits a `usize`,
/// or unsigned decimal text.
pub open spec fn count_value(w: WireCount) -> Option<usize> {
    match w {
        WireCount::Unsigned(n) => if n <= usize::MAX { Some(n as usize) } else { None },
        WireCount::Signed(n) => if 0 <= n && n <= usize::MAX { Some(n as usize) } else { None },
        WireCount::Text(s) => match unsigned_text_value(s@, usize::MAX as nat) {
            Some(v) => Some(v as usize),
            None => None,
        },
    }
}

/// The flag a wire value stands for: a native boolean, or `true` / `false` as text.
pub open spec fn flag_value(w: WireFlag) -> Option<bool> {
    match w {
        WireFlag::Native(b) => Some(b),
        WireFlag::Text(s) => if s@ == text_true() {
            Some(true)
        } else if s@ == text_false() {
            Some(false)
        } else {
            None
        },
    }
}

pub open spec fn opt_count(w: Option<WireCount>) -> Option<usize> {
    match w {
        Some(c) => count_value(c),
        None => None,
    }
}

pub open spec fn opt_flag(w: Option<WireFlag>) -> Option<bool> {
    match w {
        Some(f) => flag_value(f),
        None => None,
    }
}

pub open spec fn tag_dir() -> Seq<char> {
    seq!['f', 's', '-', 'd', 'i', 'r']
}

pub open spec fn tag_file() -> Seq<char> {
    seq!['f', 's', '-', 'f', 'i', 'l', 'e']
}

pub open spec fn tag_device() -> Seq<char> {
    seq!['f', 's', '-', 'd', 'e', 'v', 'i', 'c', 'e']
}

/// Whether a record's tag names one of the three kinds of entry.
pub open spec fn known_tag(t: Seq<char>) -> bool {
    t == tag_dir() || t == tag_file() || t == tag_device()
}

/// The entry a record stands for, if its tag is known and every field the
/// tag asks for is present and well formed. Fields of other kinds are ignored.
pub open spec fn entry_of(raw: RawDirEntry) -> Option<DirEntry> {
    match (raw.entry_type, raw.title) {
        (Some(t), Some(name)) => if t@ == tag_dir() {
            Some(DirEntry::Directory(Directory { name }))
        } else if t@ == tag_file() {
            match (raw.cdate, raw.mdate, opt_count(raw.size), opt_flag(raw.read_only)) {
                (Some(cdate), Some(mdate), Some(size), Some(read_only)) =>
                    Some(DirEntry::File(File { name, cdate, mdate, size, read_only })),
                _ => None,
            }
        } else if t@ == tag_device() {
            match (raw.device_type, opt_count(raw.free_space), opt_count(raw.total_space), opt_flag(raw.enabled), opt_flag(raw.read_only)) {
                (Some(device_type), Some(free_space), Some(total_space), Some(enabled), Some(read_only)) =>
                    Some(DirEntry::Device(Device { name, device_type, free_space, total_space, enabled, read_only })),
                _ => None,
            }
        } else {
            None
        },
        _ => None,
    }
}

/// Reads a count that may come as an integer or as text.
pub fn count_through_str(w: &WireCount) -> (r: Result<usize, DecodeError>)
    ensures
        r is Ok <==> count_value(*w) is Some,
        r matches Ok(n) ==> count_value(*w) == Some(n),
{
    match w {
        WireCount::Unsigned(n) => if *n <= usize::MAX as u64 {
            Ok(*n as usize)
        } else {
            Err(DecodeError::InvalidValue("value in range for usize"))
        },
        WireCount::Signed(n) => if *n >= 0 && (*n as u64) <= usize::MAX as u64 {
            Ok(*n as usize)
        } else {
            Err(DecodeError::InvalidValue("value in range for usize"))
        },
        WireCount::Text(s) => match read_usize(s.as_str()) {
            Some(n) => Ok(n),
            None => Err(DecodeError::InvalidValue("unsigned integer")),
        },
    }
}

/// Reads a flag that may come as a boolean or as text.
pub fn bool_through_str(w: &WireFlag) -> (r: Result<bool, DecodeError>)
    ensures
        r is Ok <==> flag_value(*w) is Some,
        r matches Ok(b) ==> flag_value(*w) == Some(b),
{
    proof {
        reveal_strlit("true");
        reveal_strlit("false");
        assert("true"@ =~= text_true());
        assert("false"@ =~= text_false());
    }
    match w {
        WireFlag::Native(b) => Ok(*b),
        WireFlag::Text(s) => if same_text(s.as_str(), "true") {
            Ok(true)
        } else if same_text(s.as_str(), "false") {
            Ok(false)
        } else {
            Err(DecodeError::InvalidValue("boolean"))
        },
    }
}

fn required_text(field: &Option<String>, name: &'static str) -> (r: Result<String, DecodeError>)
    ensures
        r is Ok <==> field is Some,
        r matches Ok(s) ==> *field == Some(s),
{
    match field {
        Some(s) => Ok(s.clone()),
        None => Err(DecodeError::MissingField(name)),
    }
}

fn required_count(field: &Option<WireCount>, name: &'static str) -> (r: Result<usize, DecodeError>)
    ensures
        r is Ok <==> opt_count(*field) is Some,
        r matches Ok(n) ==> opt_count(*field) == Some(n),
{
    match field {
        Some(w) => count_through_str(w),
        None => Err(DecodeError::MissingField(name)),
    }
}

fn required_flag(field: &Option<WireFlag>, name: &'static str) -> (r: Result<bool, DecodeError>)
    ensures
        r is Ok <==> opt_flag(*field) is Some,
        r matches Ok(b) ==> opt_flag(*field) == Some(b),
{
    match field {
        Some(w) => bool_through_str(w),
        None => Err(DecodeError::MissingField(name)),
    }
}

impl DirEntry {
    /// Decodes one listing record by its `_type` tag: `fs-dir`, `fs-file` or
    /// `fs-device`. A missing tag is a missing field, an unknown tag an
    /// unknown variant.
    pub fn from_raw(raw: &RawDirEntry) -> (r: Result<DirEntry, DecodeError>)
        ensures
            r is Ok <==> entry_of(*raw) is Some,
            r matches Ok(d) ==> entry_of(*raw) == Some(d),
            raw.entry_type is None ==> r matches Err(DecodeError::MissingField(_)),
            raw.entry_type matches Some(t) ==> (!known_tag(t@) ==> (r matches Err(DecodeError::UnknownVariant(u)) && u@ == t@)),
    {
        proof {
            reveal_strlit("fs-dir");
            reveal_strlit("fs-file");
            reveal_strlit("fs-device");
            assert("fs-dir"@ =~= tag_dir());
            assert("fs-file"@ =~= tag_file());
            assert("fs-device"@ =~= tag_device());
        }
        let tag = match &raw.entry_type {
            Some(t) => t,
            None => return Err(DecodeError::MissingField("_type")),
        };
        let is_dir = same_text(tag.as_str(), "fs-dir");
        let is_file = same_text(tag.as_str(), "fs-file");
        let is_device = same_text(tag.as_str(), "fs-device");
        if !is_dir && !is_file && !is_device {
            return Err(DecodeError::UnknownVariant(tag.clone()));
        }
        let name = required_text(&raw.title, "_title")?;
        if is_dir {
            Ok(DirEntry::Directory(Directory { name }))
        } else if is_file {
            let cdate = required_text(&raw.cdate, "fs-cdate")?;
            let mdate = required_text(&raw.mdate, "fs-mdate")?;
            let size = required_count(&raw.size, "fs-size")?;
            let read_only = required_flag(&raw.read_only, "fs-readonly")?;
            Ok(DirEntry::File(File { name, cdate, mdate, size, read_only }))
        } else {
            let device_type = required_text(&raw.device_type, "fs-device-type")?;
            let free_space = required_count(&raw.free_space, "fs-free-space")?;
            let total_space = required_count(&raw.total_space, "fs-total-space")?;
            let enabled = required_flag(&raw.enabled, "fs-enabled")?;
            let read_only = required_flag(&raw.read_only, "fs-readonly")?;
            Ok(DirEntry::Device(Device { name, device_type, free_space, total_space, enabled, read_only }))
        }
    }
}

/// Decodes a directory listing. An error status in the envelope is the
/// result; without one, every record is decoded in order and the first that
/// fails decides the error.
pub fn parse_directory_listing(envelope: Envelope<Vec<RawDirEntry>>) -> (r: Result<Result<Vec<DirEntry>, ErrorStatus>, DecodeError>)
    ensures
        envelope.status matches Some(e) ==> r == Ok::<Result<Vec<DirEntry>, ErrorStatus>, DecodeError>(Err(e)),
        envelope.status is None && envelope.state is None ==> (r matches Err(e) && is_missing_state(e)),
        envelope.status is None ==> (envelope.state matches Some(raws) ==> !(r matches Ok(Err(_)))),
        envelope.status is None ==> (envelope.state matches Some(raws) ==> (r is Ok <==> forall|i: int|
            0 <= i < raws@.len() ==> entry_of(#[trigger] raws@[i]) is Some)),
        envelope.status is None ==> (envelope.state matches Some(raws) ==> (r matches Ok(Ok(v)) ==> {
            &&& v@.len() == raws@.len()
            &&& forall|i: int| 0 <= i < raws@.len() ==> entry_of(#[trigger] raws@[i]) == Some(v@[i])
        })),
{
    let raws = match crate::envelope::parse(envelope) {
        Ok(Ok(raws)) => raws,
        Ok(Err(status)) => return Ok(Err(status)),
        Err(e) => return Err(e),
    };
    let mut entries: Vec<DirEntry> = Vec::new();
    let mut i: usize = 0;
    while i < raws.len()
        invariant
            i <= raws@.len(),
            envelope.status is None,
            envelope.state == Some(raws),
            entries@.len() == i,
            forall|j: int| 0 <= j < i ==> entry_of(#[trigger] raws@[j]) == Some(entries@[j]),
        decreases raws@.len() - i,
    {
        match DirEntry::from_raw(&raws[i]) {
            Ok(d) => {
                entries.push(d);
            },
            Err(e) => {
                assert(envelope.state->Some_0@ == raws@);
                assert(entry_of(envelope.state->Some_0@[i as int]) is None);
                return Err(e);
            },
        }
        i = i + 1;
    }
    Ok(Ok(entries))
}

} // verus!
