//! The release versions listed in a Maven repository's `maven-metadata.xml`:
//! the text of each `<version>` inside `<versioning><versions>`.
use vstd::prelude::*;
use quick_xml::events::Event;
use crate::text::{concat2, owned, str_eq};

verus! {

#[verifier::external_type_specification]
#[verifier::external_body]
#[verifier::reject_recursive_types(R)]
pub struct ExXmlReader<R>(quick_xml::reader::Reader<R>);

/// An error of the game data services.
#[derive(Debug)]
pub enum SystemError {
    Internal(String),
}

impl SystemError {
    pub fn to_string(&self) -> (r: String)
        ensures
            match self {
                SystemError::Internal(m) => r@ == m@,
            },
    {
        match self {
            SystemError::Internal(m) => m.clone(),
        }
    }
}

/// One event of an XML document, as this module reads it.
pub enum XmlEvent {
    /// An opening tag, by its name.
    Start(String),
    /// A closing tag, by its name.
    End(String),
    /// Character data.
    Text(String),
    /// The end of the document.
    Eof,
    /// The document is malformed; the reader's message.
    Error(String),
    /// Anything else (declarations, comments, empty tags, ...).
    Other,
}

/// Where the reader stands among the elements that matter.
#[derive(Clone, Copy)]
pub struct ScanState {
    pub in_versioning: bool,
    pub in_versions: bool,
    pub in_version: bool,
}

/// What a scan has found so far: where it stands, the versions read, and how the
/// document ended (`None` while it goes on).
pub struct ScanView {
    pub state: ScanState,
    pub versions: Seq<Seq<char>>,
    pub end: Option<Result<(), Seq<char>>>,
}

pub open spec fn scan_step(s: ScanState, e: XmlEvent) -> ScanState {
    match e {
        XmlEvent::Start(n) => if n@ == "versioning"@ {
            ScanState { in_versioning: true, in_versions: s.in_versions, in_version: s.in_version }
        } else if s.in_versioning && n@ == "versions"@ {
            ScanState { in_versioning: s.in_versioning, in_versions: true, in_version: s.in_version }
        } else if s.in_versions && n@ == "version"@ {
            ScanState { in_versioning: s.in_versioning, in_versions: s.in_versions, in_version: true }
        } else {
            s
        },
        XmlEvent::End(n) => if n@ == "version"@ {
            ScanState { in_versioning: s.in_versioning, in_versions: s.in_versions, in_version: false }
        } else if n@ == "versions"@ {
            ScanState { in_versioning: s.in_versioning, in_versions: false, in_version: s.in_version }
        } else if n@ == "versioning"@ {
            ScanState { in_versioning: false, in_versions: s.in_versions, in_version: s.in_version }
        } else {
            s
        },
        _ => s,
    }
}

pub open spec fn scan_start() -> ScanView {
    ScanView {
        state: ScanState { in_versioning: false, in_versions: false, in_version: false },
        versions: Seq::empty(),
        end: None,
    }
}

/// The scan of the events `es`, read in order; nothing after the end of the document counts.
pub open spec fn scan(es: Seq<XmlEvent>) -> ScanView
    decreases es.len(),
{
    if es.len() == 0 {
        scan_start()
    } else {
        let p = scan(es.drop_last());
        if p.end is Some {
            p
        } else {
            match es.last() {
                XmlEvent::Eof => ScanView { state: p.state, versions: p.versions, end: Some(Ok(())) },
                XmlEvent::Error(m) => ScanView {
                    state: p.state,
                    versions: p.versions,
                    end: Some(Err(m@)),
                },
                XmlEvent::Text(t) => if p.state.in_version {
                    ScanView { state: p.state, versions: p.versions.push(t@), end: None }
                } else {
                    p
                },
                _ => ScanView { state: scan_step(p.state, es.last()), versions: p.versions, end: None },
            }
        }
    }
}

/// The versions of a document whose events are `es`: an error for a malformed
/// document or one that lists none.
pub open spec fn maven_versions(es: Seq<XmlEvent>) -> Result<Seq<Seq<char>>, Seq<char>> {
    let s = scan(es);
    match s.end {
        Some(Err(m)) => Err("XML parse error: "@ + m),
        _ => if s.versions.len() == 0 {
            Err("could not find any versions in maven metadata"@)
        } else {
            Ok(s.versions)
        },
    }
}

pub open spec fn strings_of(v: Seq<String>) -> Seq<Seq<char>> {
    v.map_values(|s: String| s@)
}

/// Whether `r` is what reading the versions out of the events `es` gives.
pub open spec fn versions_outcome(es: Seq<XmlEvent>, r: Result<Vec<String>, SystemError>) -> bool {
    match maven_versions(es) {
        Ok(vs) => r matches Ok(v) && strings_of(v@) == vs,
        Err(m) => r matches Err(SystemError::Internal(e)) && e@ == m,
    }
}

/// Reads the versions out of the events of a metadata document.
pub fn collect_versions(events: &Vec<XmlEvent>) -> (r: Result<Vec<String>, SystemError>)
    ensures
        match maven_versions(events@) {
            Ok(vs) => r matches Ok(v) && strings_of(v@) == vs,
            Err(m) => r matches Err(SystemError::Internal(e)) && e@ == m,
        },
{
    let mut state = ScanState { in_versioning: false, in_versions: false, in_version: false };
    let mut versions: Vec<String> = Vec::new();
    let mut end: Option<Result<(), String>> = None;
    let mut i: usize = 0;
    assert(events@.subrange(0, 0) =~= Seq::<XmlEvent>::empty());
    assert(strings_of(versions@) =~= Seq::<Seq<char>>::empty());
    while i < events.len()
        invariant
            i <= events@.len(),
            scan(events@.subrange(0, i as int)).state == state,
            scan(events@.subrange(0, i as int)).versions == strings_of(versions@),
            match scan(events@.subrange(0, i as int)).end {
                None => end is None,
                Some(Ok(())) => end == Some(Ok::<(), String>(())),
                Some(Err(m)) => end matches Some(Err(e)) && e@ == m,
            },
        decreases events@.len() - i,
    {
        let ghost nxt = events@.subrange(0, i + 1);
        assert(nxt.drop_last() =~= events@.subrange(0, i as int));
        assert(nxt.last() == events@[i as int]);
        if end.is_none() {
            match &events[i] {
                XmlEvent::Eof => {
                    end = Some(Ok(()));
                },
                XmlEvent::Error(m) => {
                    end = Some(Err(m.clone()));
                },
                XmlEvent::Text(t) => {
                    if state.in_version {
                        let ghost prev = strings_of(versions@);
                        versions.push(t.clone());
                        assert(strings_of(versions@) =~= prev.push(t@));
                    }
                },
                XmlEvent::Start(n) => {
                    if str_eq(n.as_str(), "versioning") {
                        state.in_versioning = true;
                    } else if state.in_versioning && str_eq(n.as_str(), "versions") {
                        state.in_versions = true;
                    } else if state.in_versions && str_eq(n.as_str(), "version") {
                        state.in_version = true;
                    }
                },
                XmlEvent::End(n) => {
                    if str_eq(n.as_str(), "version") {
                        state.in_version = false;
                    } else if str_eq(n.as_str(), "versions") {
                        state.in_versions = false;
                    } else if str_eq(n.as_str(), "versioning") {
                        state.in_versioning = false;
                    }
                },
                XmlEvent::Other => {},
            }
        }
        i = i + 1;
    }
    assert(events@.subrange(0, events@.len() as int) =~= events@);
    match end {
        Some(Err(m)) => Err(SystemError::Internal(concat2("XML parse error: ", m.as_str()))),
        _ => if versions.len() == 0 {
            Err(SystemError::Internal(owned("could not find any versions in maven metadata")))
        } else {
            Ok(versions)
        },
    }
}

/// Whether `e` ends a document's events: its end, or an error.
pub open spec fn is_final_event(e: XmlEvent) -> bool {
    e is Eof || e is Error
}

/// Whether `es` is the whole event stream of a document: it ends with the document's
/// end or its first error, and nothing before that does.
pub open spec fn complete_stream(es: Seq<XmlEvent>) -> bool {
    &&& es.len() > 0
    &&& is_final_event(es.last())
    &&& forall|i: int| 0 <= i < es.len() - 1 ==> !is_final_event(#[trigger] es[i])
}

/// The events `quick_xml` reads from the document `xml`, in order, up to and
/// including its end or its first error (converted as `next_xml_event` does).
pub uninterp spec fn xml_events(xml: Seq<char>) -> Seq<XmlEvent>;

/// The events a reader has still to give, up to and including the document's end or
/// its first error.
pub uninterp spec fn pending_events(reader: quick_xml::reader::Reader<&[u8]>) -> Seq<XmlEvent>;

/// `quick_xml::reader::Reader::from_str`: a reader at the start of `xml`, which has
/// all of the document's events still to give. A document read from a string ends
/// with its end or an error.
#[verifier::external_body]
fn xml_reader<'a>(xml: &'a str) -> (r: quick_xml::reader::Reader<&'a [u8]>)
    ensures
        pending_events(r) == xml_events(xml@),
        complete_stream(pending_events(r)),
{
    quick_xml::reader::Reader::from_str(xml)
}

/// `Reader::read_event_into`: the next event of the document, tags given by their
/// name, character data by `BytesText::xml10_content`, a failure by its message.
/// While the reader has events to give, this is the first of them, and the reader
/// then has the rest to give.
#[verifier::external_body]
fn next_xml_event(reader: &mut quick_xml::reader::Reader<&[u8]>) -> (r: XmlEvent)
    ensures
        pending_events(*old(reader)).len() > 0 ==> r == pending_events(*old(reader))[0]
            && pending_events(*final(reader)) == pending_events(*old(reader)).drop_first(),
{
    let mut buf: Vec<u8> = Vec::new();
    match reader.read_event_into(&mut buf) {
        Ok(Event::Start(t)) => XmlEvent::Start(String::from(t.name().as_ref())),
        Ok(Event::End(t)) => XmlEvent::End(String::from(t.name().as_ref())),
        Ok(Event::Text(t)) => XmlEvent::Text(t.xml10_content().into_owned()),
        Ok(Event::Eof) => XmlEvent::Eof,
        Ok(_) => XmlEvent::Other,
        Err(e) => XmlEvent::Error(format!("{e}")),
    }
}

/// The versions listed in a `maven-metadata.xml` document: the text of each
/// `<version>` inside `<versioning><versions>`, in document order, read from the
/// events `quick_xml` gives for it; an error when the document is malformed or lists
/// no version.
pub fn parse_maven_versions(xml: &str) -> (r: Result<Vec<String>, SystemError>)
    ensures
        versions_outcome(xml_events(xml@), r),
        r matches Ok(v) ==> v@.len() > 0,
{
    let mut reader = xml_reader(xml);
    let ghost all = xml_events(xml@);
    let mut events: Vec<XmlEvent> = Vec::new();
    loop
        invariant_except_break
            events@.len() < all.len(),
            pending_events(reader) == all.subrange(events@.len() as int, all.len() as int),
        invariant
            complete_stream(all),
            events@.len() <= all.len(),
            events@ == all.subrange(0, events@.len() as int),
        ensures
            events@ == all,
        decreases pending_events(reader).len(),
    {
        let ghost before = pending_events(reader);
        assert(before[0] == all[events@.len() as int]);
        let e = next_xml_event(&mut reader);
        let stop = match &e {
            XmlEvent::Eof => true,
            XmlEvent::Error(_) => true,
            _ => false,
        };
        events.push(e);
        assert(events@ =~= all.subrange(0, events@.len() as int));
        assert(pending_events(reader) =~= all.subrange(events@.len() as int, all.len() as int));
        if stop {
            assert(is_final_event(all[events@.len() - 1]));
            assert(events@.len() == all.len());
            assert(events@ =~= all);
            break;
        }
        assert(!is_final_event(all[events@.len() - 1]));
    }
    let r = collect_versions(&events);
    r
}

} // verus!
