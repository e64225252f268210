//! The multipart form of a tile: its parts are taken in one by one, each
//! named part filling one field.

use crate::error::Error;
use crate::text::{opt_text, starts_with, str_eq, strip_prefix, texts};
use std::string::FromUtf8Error;
use vstd::prelude::*;
use vstd::utf8::{encode_utf8, valid_utf8};

verus! {

/// `std::string::FromUtf8Error`, which is only passed along.
#[verifier::external_type_specification]
#[verifier::external_body]
pub struct ExFromUtf8Error(FromUtf8Error);

/// `String::from_utf8`: the string whose UTF-8 bytes are `bytes`, or an
/// error where they are not UTF-8.
pub assume_specification[ String::from_utf8 ](bytes: Vec<u8>) -> (r: Result<String, FromUtf8Error>)
    ensures
        match r {
            Ok(s) => valid_utf8(bytes@) && encode_utf8(s@) == bytes@,
            Err(_) => !valid_utf8(bytes@),
        },
;

/// The list of strings that `text` denotes as a JSON array of strings;
/// none where it is no such array.
pub uninterp spec fn json_string_list(text: Seq<char>) -> Option<Seq<Seq<char>>>;

/// The texts of an optional list of strings.
pub open spec fn opt_texts(o: Option<Vec<String>>) -> Option<Seq<Seq<char>>> {
    match o {
        Some(v) => Some(texts(v@)),
        None => None,
    }
}

/// `serde_json::from_str::<Vec<String>>`: parses `text` as a JSON array of
/// strings. Any error gives `None`.
#[verifier::external_body]
fn parse_string_list(text: &str) -> (list: Option<Vec<String>>)
    ensures
        opt_texts(list) == json_string_list(text@),
{
    serde_json::from_str::<Vec<String>>(text).ok()
}

/// One part of a multipart form, read to its end.
#[derive(Debug)]
pub struct FormPart {
    pub name: String,
    pub content_type: Option<String>,
    /// The part's bytes; none where reading them failed.
    pub bytes: Option<Vec<u8>>,
}

pub struct FormPartView {
    pub name: Seq<char>,
    pub content_type: Option<Seq<char>>,
    pub bytes: Option<Seq<u8>>,
}

/// The bytes of an optional byte vector.
pub open spec fn opt_bytes(o: Option<Vec<u8>>) -> Option<Seq<u8>> {
    match o {
        Some(v) => Some(v@),
        None => None,
    }
}

impl View for FormPart {
    type V = FormPartView;

    open spec fn view(&self) -> FormPartView {
        FormPartView {
            name: self.name@,
            content_type: opt_text(self.content_type),
            bytes: opt_bytes(self.bytes),
        }
    }
}

/// The views of a list of parts.
pub open spec fn part_views(v: Seq<FormPart>) -> Seq<FormPartView> {
    v.map_values(|p: FormPart| p@)
}

/// What a tile's form has given so far. A new tile needs all three
/// fields; an update changes the fields that are there.
#[derive(Debug)]
pub struct TileForm {
    pub phrase: Option<String>,
    /// The image's bytes and its declared media type.
    pub image: Option<(Vec<u8>, String)>,
    pub categories: Option<Vec<String>>,
}

pub struct TileFormView {
    pub phrase: Option<Seq<char>>,
    pub image: Option<(Seq<u8>, Seq<char>)>,
    pub categories: Option<Seq<Seq<char>>>,
}

impl View for TileForm {
    type V = TileFormView;

    open spec fn view(&self) -> TileFormView {
        TileFormView {
            phrase: opt_text(self.phrase),
            image: match self.image {
                Some((bytes, media_type)) => Some((bytes@, media_type@)),
                None => None,
            },
            categories: opt_texts(self.categories),
        }
    }
}

/// The text that `bytes` encode.
pub open spec fn text_of(bytes: Seq<u8>) -> Seq<char> {
    vstd::utf8::decode_utf8(bytes)
}

impl TileFormView {
    pub open spec fn empty() -> TileFormView {
        TileFormView { phrase: None, image: None, categories: None }
    }

    /// The form after one more part. A part named `phrase` or
    /// `categories` whose bytes are not UTF-8, and a `categories` part
    /// that is no JSON array of strings, spoil the request. An `image`
    /// part counts if its media type begins with `image/`. A part that
    /// could not be read, and any other part, changes nothing; a later
    /// part replaces an earlier one of the same name.
    pub open spec fn absorb(self, part: FormPartView) -> Result<TileFormView, Error> {
        if part.name == "phrase"@ {
            match part.bytes {
                Some(b) => if valid_utf8(b) {
                    Ok(TileFormView { phrase: Some(text_of(b)), ..self })
                } else {
                    Err(Error::MalformedRequest)
                },
                None => Ok(self),
            }
        } else if part.name == "categories"@ {
            match part.bytes {
                Some(b) => if valid_utf8(b) && json_string_list(text_of(b)) is Some {
                    Ok(TileFormView { categories: json_string_list(text_of(b)), ..self })
                } else {
                    Err(Error::MalformedRequest)
                },
                None => Ok(self),
            }
        } else if part.name == "image"@ {
            match (part.content_type, part.bytes) {
                (Some(t), Some(b)) => if starts_with(t, "image/"@) {
                    Ok(TileFormView { image: Some((b, t)), ..self })
                } else {
                    Ok(self)
                },
                _ => Ok(self),
            }
        } else {
            Ok(self)
        }
    }

    /// The form after all of `parts`, in order, or the first error.
    pub open spec fn absorb_all(self, parts: Seq<FormPartView>) -> Result<TileFormView, Error>
        decreases parts.len(),
    {
        if parts.len() == 0 {
            Ok(self)
        } else {
            match self.absorb(parts[0]) {
                Ok(next) => next.absorb_all(parts.drop_first()),
                Err(e) => Err(e),
            }
        }
    }
}

/// The view or the error of a form's outcome.
pub open spec fn form_outcome(r: Result<TileForm, Error>) -> Result<TileFormView, Error> {
    match r {
        Ok(f) => Ok(f@),
        Err(e) => Err(e),
    }
}

impl TileForm {
    pub fn new() -> (form: TileForm)
        ensures
            form@ == TileFormView::empty(),
    {
        TileForm { phrase: None, image: None, categories: None }
    }

    /// Takes in one more part.
    pub fn absorb(self, part: FormPart) -> (r: Result<TileForm, Error>)
        ensures
            form_outcome(r) == self@.absorb(part@),
    {
        let mut form = self;
        let FormPart { name, content_type, bytes } = part;
        if str_eq(name.as_str(), "phrase") {
            if let Some(b) = bytes {
                match String::from_utf8(b) {
                    Ok(s) => {
                        proof {
                            vstd::utf8::encode_utf8_decode_utf8(s@);
                        }
                        form.phrase = Some(s);
                    },
                    Err(_) => {
                        return Err(Error::MalformedRequest);
                    },
                }
            }
        } else if str_eq(name.as_str(), "categories") {
            if let Some(b) = bytes {
                match String::from_utf8(b) {
                    Ok(raw) => {
                        proof {
                            vstd::utf8::encode_utf8_decode_utf8(raw@);
                        }
                        match parse_string_list(raw.as_str()) {
                            Some(list) => {
                                form.categories = Some(list);
                            },
                            None => {
                                return Err(Error::MalformedRequest);
                            },
                        }
                    },
                    Err(_) => {
                        return Err(Error::MalformedRequest);
                    },
                }
            }
        } else if str_eq(name.as_str(), "image") {
            if let Some(t) = content_type {
                if let Some(b) = bytes {
                    if strip_prefix(t.as_str(), "image/").is_some() {
                        form.image = Some((b, t));
                    }
                }
            }
        }
        Ok(form)
    }
}

/// Decodes a tile's form from its parts, taken in order.
pub fn decode_tile_form(parts: Vec<FormPart>) -> (r: Result<TileForm, Error>)
    ensures
        form_outcome(r) == TileFormView::empty().absorb_all(part_views(parts@)),
{
    let ghost all = part_views(parts@);
    let mut rest = parts;
    let mut form = TileForm::new();
    while rest.len() > 0
        invariant
            all == part_views(parts@),
            TileFormView::empty().absorb_all(all) == form@.absorb_all(part_views(rest@)),
        decreases rest.len(),
    {
        let ghost before = part_views(rest@);
        let part = rest.remove(0);
        assert(part_views(rest@) =~= before.drop_first());
        match form.absorb(part) {
            Ok(next) => {
                form = next;
            },
            Err(e) => {
                return Err(e);
            },
        }
    }
    Ok(form)
}

} // verus!
