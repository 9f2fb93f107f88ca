//! The clipboard's decisions between the pasteboard and the client: which
//! formats to offer, which to ask for on a paste, where requested data
//! comes from, and what to do with data the client sends.

use vstd::prelude::*;
use crate::formats::{
    spec_uti_to_rdp_format_id, uti_to_rdp_format_id, BITMAPINFOHEADER_SIZE, CF_DIB, CF_UNICODETEXT,
    FORMAT_ID_FILE_LIST, FORMAT_ID_HTML,
};
use crate::bytes::{get_le32, read_le32};

verus! {

/// The registered name a format is offered under.
#[derive(Debug, Clone, Copy, PartialEq, Eq, Structural)]
pub enum FormatName {
    Html,
    FileList,
}

/// A format offered to the client.
#[derive(Debug, Clone, Copy, PartialEq, Eq, Structural)]
pub struct OfferedFormat {
    pub id: u32,
    pub name: Option<FormatName>,
}

/// The offer for format `id`: HTML and file lists go by their names.
pub open spec fn offer_for(id: u32) -> OfferedFormat {
    OfferedFormat {
        id,
        name: if id == FORMAT_ID_HTML {
            Some(FormatName::Html)
        } else if id == FORMAT_ID_FILE_LIST {
            Some(FormatName::FileList)
        } else {
            None
        },
    }
}

/// The offers for pasteboard types `types`, in order, leaving out the
/// types no format stands for.
pub open spec fn offers_for(types: Seq<Seq<char>>) -> Seq<OfferedFormat>
    decreases types.len(),
{
    if types.len() == 0 {
        seq![]
    } else {
        let rest = offers_for(types.drop_last());
        match spec_uti_to_rdp_format_id(types.last()) {
            Some(id) => rest.push(offer_for(id)),
            None => rest,
        }
    }
}

/// The format list for the pasteboard's types.
pub fn build_format_list(types: &[String]) -> (r: Vec<OfferedFormat>)
    ensures
        r@ == offers_for(types@.map_values(|t: String| t@)),
{
    let ghost tv = types@.map_values(|t: String| t@);
    let mut r: Vec<OfferedFormat> = Vec::new();
    let mut i: usize = 0;
    while i < types.len()
        invariant
            i <= types@.len(),
            tv == types@.map_values(|t: String| t@),
            r@ == offers_for(tv.take(i as int)),
        decreases types.len() - i,
    {
        proof {
            assert(tv.take(i + 1).drop_last() =~= tv.take(i as int));
            assert(tv.take(i + 1).last() == types@[i as int]@);
        }
        match uti_to_rdp_format_id(types[i].as_str()) {
            Some(id) => {
                let name = if id == FORMAT_ID_HTML {
                    Some(FormatName::Html)
                } else if id == FORMAT_ID_FILE_LIST {
                    Some(FormatName::FileList)
                } else {
                    None
                };
                r.push(OfferedFormat { id, name });
            },
            None => {},
        }
        i = i + 1;
    }
    assert(tv.take(types@.len() as int) =~= tv);
    r
}

/// Formats asked for on a paste, best first: files, HTML, image, text.
pub open spec fn paste_preference() -> Seq<u32> {
    seq![FORMAT_ID_FILE_LIST, FORMAT_ID_HTML, CF_DIB, CF_UNICODETEXT]
}

/// The first of `prefs` that `offered` holds.
pub open spec fn first_offered(offered: Seq<u32>, prefs: Seq<u32>) -> Option<u32>
    decreases prefs.len(),
{
    if prefs.len() == 0 {
        None
    } else if offered.contains(prefs[0]) {
        Some(prefs[0])
    } else {
        first_offered(offered, prefs.drop_first())
    }
}

fn offers(offered: &[u32], id: u32) -> (b: bool)
    ensures
        b == offered@.contains(id),
{
    let mut i: usize = 0;
    while i < offered.len()
        invariant
            i <= offered@.len(),
            forall|k: int| 0 <= k < i ==> offered@[k] != id,
        decreases offered.len() - i,
    {
        if offered[i] == id {
            return true;
        }
        i = i + 1;
    }
    false
}

/// The format to ask for when the client copies: the best one it offers.
pub fn choose_paste_format(offered: &[u32]) -> (r: Option<u32>)
    ensures
        r == first_offered(offered@, paste_preference()),
{
    let ghost p = paste_preference();
    proof {
        assert(p.drop_first() =~= seq![FORMAT_ID_HTML, CF_DIB, CF_UNICODETEXT]);
        assert(p.drop_first().drop_first() =~= seq![CF_DIB, CF_UNICODETEXT]);
        assert(p.drop_first().drop_first().drop_first() =~= seq![CF_UNICODETEXT]);
        assert(p.drop_first().drop_first().drop_first().drop_first() =~= Seq::<u32>::empty());
        reveal_with_fuel(first_offered, 5);
    }
    if offers(offered, FORMAT_ID_FILE_LIST) {
        Some(FORMAT_ID_FILE_LIST)
    } else if offers(offered, FORMAT_ID_HTML) {
        Some(FORMAT_ID_HTML)
    } else if offers(offered, CF_DIB) {
        Some(CF_DIB)
    } else if offers(offered, CF_UNICODETEXT) {
        Some(CF_UNICODETEXT)
    } else {
        None
    }
}

/// Where the data for a requested format comes from.
#[derive(Debug, Clone, Copy, PartialEq, Eq, Structural)]
pub enum LocalSource {
    /// The pasteboard's text, as Unicode text.
    Text,
    /// The pasteboard's image, as a DIB.
    Image,
    /// The pasteboard's HTML, in the HTML clipboard format.
    Html,
    /// The pasteboard's file URLs, as a file list.
    FileList,
    /// No such format is served.
    Unsupported,
}

/// The source for format `format_id`.
pub open spec fn spec_local_source(format_id: u32) -> LocalSource {
    if format_id == CF_UNICODETEXT {
        LocalSource::Text
    } else if format_id == CF_DIB {
        LocalSource::Image
    } else if format_id == FORMAT_ID_HTML {
        LocalSource::Html
    } else if format_id == FORMAT_ID_FILE_LIST {
        LocalSource::FileList
    } else {
        LocalSource::Unsupported
    }
}

/// Where the data for a format the client requests comes from.
pub fn local_source(format_id: u32) -> (s: LocalSource)
    ensures
        s == spec_local_source(format_id),
{
    if format_id == CF_UNICODETEXT {
        LocalSource::Text
    } else if format_id == CF_DIB {
        LocalSource::Image
    } else if format_id == FORMAT_ID_HTML {
        LocalSource::Html
    } else if format_id == FORMAT_ID_FILE_LIST {
        LocalSource::FileList
    } else {
        LocalSource::Unsupported
    }
}

/// What to do with data the client sent for a paste.
#[derive(Debug, Clone, Copy, PartialEq, Eq, Structural)]
pub enum RemoteWrite {
    /// Write it as text.
    Text,
    /// Write it as an image, from a DIB.
    Dib,
    /// Write the HTML it holds.
    Html,
    /// Start fetching the files it lists.
    FileList,
    /// Nothing can be made of it.
    Ignore,
}

/// Whether `data` opens with a `BITMAPINFOHEADER` size field.
pub open spec fn looks_like_dib(data: Seq<u8>) -> bool {
    data.len() >= BITMAPINFOHEADER_SIZE && read_le32(data, 0) == BITMAPINFOHEADER_SIZE
}

/// What to do with pasted data: by the format that was asked for; without
/// one (or an unexpected one), text when it decodes as text, else a DIB
/// when it starts like one.
pub open spec fn spec_remote_write(pending: Option<u32>, decodes_as_text: bool, data: Seq<u8>) -> RemoteWrite {
    match pending {
        Some(f) if f == CF_UNICODETEXT => RemoteWrite::Text,
        Some(f) if f == CF_DIB => RemoteWrite::Dib,
        Some(f) if f == FORMAT_ID_HTML => RemoteWrite::Html,
        Some(f) if f == FORMAT_ID_FILE_LIST => RemoteWrite::FileList,
        _ => if decodes_as_text {
            RemoteWrite::Text
        } else if looks_like_dib(data) {
            RemoteWrite::Dib
        } else {
            RemoteWrite::Ignore
        },
    }
}

/// What to do with the data of a paste, given the format asked for and
/// whether the data decodes as Unicode text.
pub fn remote_write(pending: Option<u32>, decodes_as_text: bool, data: &[u8]) -> (w: RemoteWrite)
    ensures
        w == spec_remote_write(pending, decodes_as_text, data@),
{
    match pending {
        Some(f) if f == CF_UNICODETEXT => RemoteWrite::Text,
        Some(f) if f == CF_DIB => RemoteWrite::Dib,
        Some(f) if f == FORMAT_ID_HTML => RemoteWrite::Html,
        Some(f) if f == FORMAT_ID_FILE_LIST => RemoteWrite::FileList,
        _ => {
            if decodes_as_text {
                RemoteWrite::Text
            } else if data.len() >= BITMAPINFOHEADER_SIZE && get_le32(data, 0) as usize == BITMAPINFOHEADER_SIZE {
                RemoteWrite::Dib
            } else {
                RemoteWrite::Ignore
            }
        },
    }
}

/// The text clipboard's memory of the pasteboard text last seen.
pub struct TextClipboardState {
    pub last_text: Option<String>,
}

impl TextClipboardState {
    /// Nothing seen yet.
    pub fn new() -> (s: Self)
        ensures
            s.last_text is None,
    {
        TextClipboardState { last_text: None }
    }

    /// The pasteboard now holds `text`: when it changed, it is remembered
    /// and `Some(has_text)` says whether text is now offered; `None` when
    /// nothing changed.
    pub fn observe(&mut self, text: Option<String>) -> (r: Option<bool>)
        ensures
            old(self).last_text.deep_view() == text.deep_view() ==> r is None && final(self).last_text.deep_view()
                == old(self).last_text.deep_view(),
            old(self).last_text.deep_view() != text.deep_view() ==> r == Some(text is Some)
                && final(self).last_text.deep_view() == text.deep_view(),
    {
        let same = match (&self.last_text, &text) {
            (None, None) => true,
            (Some(a), Some(b)) => crate::formats::str_eq(a.as_str(), b.as_str()),
            _ => false,
        };
        if same {
            None
        } else {
            let has = text.is_some();
            self.last_text = text;
            Some(has)
        }
    }
}

} // verus!
