//! The record that a list holds, and what it weighs once encoded.

use vstd::prelude::*;
use vstd::utf8::encode_utf8;

verus! {

/// Bytes of the length that precedes every text and every sequence in the
/// encoding of a slot.
pub const LENGTH_PREFIX_LEN: usize = 4;

/// Bytes that a text takes in the encoding of a slot: its length prefix, then
/// its UTF-8 bytes.
pub open spec fn text_len(text: Seq<char>) -> nat {
    LENGTH_PREFIX_LEN as nat + encode_utf8(text).len()
}

/// A blink as contracts see it: seven texts.
pub struct BlinkView {
    pub id: Seq<char>,
    pub title: Seq<char>,
    pub icon: Seq<char>,
    pub description: Seq<char>,
    pub label: Seq<char>,
    pub to_pubkey: Seq<char>,
    pub link: Seq<char>,
}

impl BlinkView {
    /// Bytes that the blink takes in the encoding of a slot: its seven texts,
    /// one after the other.
    pub open spec fn encoded_len(self) -> nat {
        text_len(self.id) + text_len(self.title) + text_len(self.icon) + text_len(
            self.description,
        ) + text_len(self.label) + text_len(self.to_pubkey) + text_len(self.link)
    }
}

/// A shareable action link. The `id` is the key by which a blink is deleted;
/// nothing keeps two blinks of one list from having the same id.
#[derive(Clone, Debug, PartialEq, Eq)]
pub struct Blink {
    pub id: String,
    pub title: String,
    pub icon: String,
    pub description: String,
    pub label: String,
    pub to_pubkey: String,
    pub link: String,
}

impl View for Blink {
    type V = BlinkView;

    open spec fn view(&self) -> BlinkView {
        BlinkView {
            id: self.id@,
            title: self.title@,
            icon: self.icon@,
            description: self.description@,
            label: self.label@,
            to_pubkey: self.to_pubkey@,
            link: self.link@,
        }
    }
}

/// Adds the encoded length of `text` to `total`, unless the sum would pass
/// `limit`.
fn add_text_len(total: usize, text: &String, limit: usize) -> (sum: Option<usize>)
    ensures
        sum == if total + text_len(text@) <= limit {
            Some((total + text_len(text@)) as usize)
        } else {
            None
        },
{
    if total > limit {
        return None;
    }
    let bytes = text.as_str().as_bytes().len();
    let room = limit - total;
    if room >= LENGTH_PREFIX_LEN && bytes <= room - LENGTH_PREFIX_LEN {
        Some(total + LENGTH_PREFIX_LEN + bytes)
    } else {
        None
    }
}

impl Blink {
    /// A blink made of the seven texts, in the order of the fields.
    pub fn new(
        id: String,
        title: String,
        icon: String,
        description: String,
        label: String,
        to_pubkey: String,
        link: String,
    ) -> (blink: Blink)
        ensures
            blink@ == (BlinkView {
                id: id@,
                title: title@,
                icon: icon@,
                description: description@,
                label: label@,
                to_pubkey: to_pubkey@,
                link: link@,
            }),
    {
        Blink { id, title, icon, description, label, to_pubkey, link }
    }

    /// Adds the encoded length of this blink to `total`, unless the sum would
    /// pass `limit`.
    pub fn add_encoded_len(&self, total: usize, limit: usize) -> (sum: Option<usize>)
        ensures
            sum == if total + self@.encoded_len() <= limit {
                Some((total + self@.encoded_len()) as usize)
            } else {
                None
            },
    {
        let Some(after_id) = add_text_len(total, &self.id, limit) else {
            return None;
        };
        let Some(after_title) = add_text_len(after_id, &self.title, limit) else {
            return None;
        };
        let Some(after_icon) = add_text_len(after_title, &self.icon, limit) else {
            return None;
        };
        let Some(after_description) = add_text_len(after_icon, &self.description, limit) else {
            return None;
        };
        let Some(after_label) = add_text_len(after_description, &self.label, limit) else {
            return None;
        };
        let Some(after_to_pubkey) = add_text_len(after_label, &self.to_pubkey, limit) else {
            return None;
        };
        add_text_len(after_to_pubkey, &self.link, limit)
    }

    /// The encoded length of this blink, where it is at most `limit`.
    pub fn encoded_len_within(&self, limit: usize) -> (len: Option<usize>)
        ensures
            len == if self@.encoded_len() <= limit {
                Some(self@.encoded_len() as usize)
            } else {
                None
            },
    {
        self.add_encoded_len(0, limit)
    }
}

} // verus!
