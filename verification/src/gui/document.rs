//! The configuration that is open, and its fields.
use vstd::prelude::*;

use super::app::Page;
use super::settings::{common_error, edited, fields_of, peer_error, FieldError, TextFields};
use crate::config::Config;
use crate::ordered::OrderedMap;
use crate::text::same_text;

verus! {

/// A configuration as it is edited and as it was last read or written.
pub struct ConfigDocument {
    pub path: String,
    pub draft: Config,
    pub saved: Config,
    /// There is no file yet.
    pub new: bool,
}

impl ConfigDocument {
    pub open spec fn wf(&self) -> bool {
        self.draft.wf() && self.saved.wf()
    }

    /// A document that was just read, or that is to be created.
    pub fn open(path: String, stored: Config, new: bool) -> (result: Self)
        requires
            stored.wf(),
        ensures
            result.wf(),
            result.path == path,
            result.draft == stored,
            result.saved@ == stored@,
            result.new == new,
    {
        let saved = stored.copy();
        ConfigDocument { path, draft: stored, saved, new }
    }

    pub fn is_new(&self) -> (result: bool)
        ensures
            result == self.new,
    {
        self.new
    }

    pub fn is_dirty(&self) -> (result: bool)
        requires
            self.wf(),
        ensures
            result == (self.draft@ != self.saved@),
    {
        !self.draft.same_as(&self.saved)
    }
}

pub open spec fn texts_by_name(map: Map<Seq<char>, String>) -> Map<Seq<char>, Seq<char>> {
    map.map_values(|text: String| text@)
}

fn texts_included(left: &OrderedMap<String>, right: &OrderedMap<String>) -> (result: bool)
    requires
        left.wf(),
        right.wf(),
    ensures
        result == texts_by_name(left@).submap_of(texts_by_name(right@)),
{
    let ghost a = texts_by_name(left@);
    let ghost b = texts_by_name(right@);
    let count: usize = left.len();
    let mut at: usize = 0;
    while at < count
        invariant
            left.wf(),
            right.wf(),
            a == texts_by_name(left@),
            b == texts_by_name(right@),
            count == left.keys().len(),
            at <= count,
            forall|i: int|
                0 <= i < at ==> b.contains_pair(#[trigger] left.keys()[i], left.values()[i]@),
        decreases count - at,
    {
        proof {
            left.entry_in_map(at as int);
        }
        let ghost name = left.keys()[at as int];
        assert(a.contains_pair(name, left.values()[at as int]@));
        match right.get(left.key_at(at).as_str()) {
            Some(text) => {
                assert(b.contains_pair(name, text@));
                if !same_text(left.value_at(at).as_str(), text.as_str()) {
                    assert(a.dom().contains(name));
                    return false;
                }
            },
            None => {
                assert(a.dom().contains(name) && !b.dom().contains(name));
                return false;
            },
        }
        at = at + 1;
    }
    assert forall|name: Seq<char>| a.dom().contains(name) implies #[trigger] b.dom().contains(name)
        && a[name] == b[name] by {
        assert(left@.contains_key(name));
        let k = left.key_has_position(name);
        assert(b.contains_pair(left.keys()[k], left.values()[k]@));
    }
    true
}

impl TextFields {
    pub fn same_as(&self, other: &TextFields) -> (result: bool)
        requires
            self.wf(),
            other.wf(),
        ensures
            result == (self@ == other@),
    {
        let addresses = texts_included(&self.addresses, &other.addresses) && texts_included(
            &other.addresses,
            &self.addresses,
        );
        proof {
            let a = self@.addresses;
            let b = other@.addresses;
            assert(a == texts_by_name(self.addresses@));
            assert(b == texts_by_name(other.addresses@));
            if addresses {
                assert forall|name: Seq<char>| a.dom().contains(
                    name,
                ) == #[trigger] b.dom().contains(name) by {
                    if b.dom().contains(name) {
                        assert(b.submap_of(a));
                        assert(a.dom().contains(name));
                    }
                    if a.dom().contains(name) {
                        assert(a.submap_of(b));
                        assert(b.dom().contains(name));
                    }
                }
                assert(a.dom() =~= b.dom());
                assert(a =~= b);
            }
        }
        same_text(self.listen.as_str(), other.listen.as_str()) && same_text(
            self.activation.as_str(),
            other.activation.as_str(),
        ) && same_text(self.escape.as_str(), other.escape.as_str()) && same_text(
            self.state_dir.as_str(),
            other.state_dir.as_str(),
        ) && same_text(self.control_socket.as_str(), other.control_socket.as_str()) && addresses
    }
}

#[derive(Debug, PartialEq, Eq)]
pub enum SyncError {
    NoConfiguration,
    NoFields,
    Field(FieldError),
}

/// What the program has open.
pub struct SettingsApp {
    /// The computers come from the service, and nothing else can be edited.
    pub service_mode: bool,
    pub document: Option<ConfigDocument>,
    pub fields: Option<TextFields>,
    pub load_error: Option<String>,
    pub page: Page,
}

impl SettingsApp {
    pub open spec fn wf(&self) -> bool {
        &&& self.document matches Some(document) ==> document.wf()
        &&& self.fields matches Some(fields) ==> fields.wf()
    }

    pub fn open(service_mode: bool) -> (result: Self)
        ensures
            result.wf(),
            result.service_mode == service_mode,
            result.document is None,
            result.fields is None,
            result.load_error is None,
            result.page == Page::Layout,
    {
        SettingsApp {
            service_mode,
            document: None,
            fields: None,
            load_error: None,
            page: Page::Layout,
        }
    }

    /// A configuration file was read, or not. A failure keeps what is open.
    /// Without paired computers the first thing to do is to pair one.
    pub fn load(&mut self, loaded: Result<ConfigDocument, String>)
        requires
            old(self).wf(),
            loaded matches Ok(document) ==> document.wf(),
        ensures
            final(self).wf(),
            final(self).service_mode == old(self).service_mode,
            match loaded {
                Err(reason) => *final(self) == (SettingsApp {
                    load_error: Some(reason),
                    ..*old(self)
                }),
                Ok(document) => {
                    &&& final(self).document == Some(document)
                    &&& final(self).fields matches Some(fields) && fields@ == fields_of(
                        document.draft@,
                    )
                    &&& final(self).load_error is None
                    &&& final(self).page == if document.draft.peers.keys().len() == 0 {
                        Page::Computers
                    } else {
                        old(self).page
                    }
                },
            },
    {
        match loaded {
            Err(reason) => {
                self.load_error = Some(reason);
            },
            Ok(document) => {
                if document.draft.peers.len() == 0 {
                    self.page = Page::Computers;
                }
                self.fields = Some(TextFields::from_config(&document.draft));
                self.document = Some(document);
                self.load_error = None;
            },
        }
    }

    /// The service is asked for its computers: until it answers, nothing is open.
    pub fn load_service(&mut self, pending: String)
        ensures
            final(self).wf(),
            *final(self) == (SettingsApp {
                document: None,
                fields: None,
                load_error: Some(pending),
                ..*old(self)
            }),
    {
        self.document = None;
        self.fields = None;
        self.load_error = Some(pending);
    }

    /// The service answered with what it shows of its configuration.
    pub fn service_answered(&mut self, path: String, answer: Result<Config, String>)
        requires
            old(self).wf(),
            answer matches Ok(config) ==> config.wf(),
        ensures
            final(self).wf(),
            match answer {
                Err(reason) => *final(self) == (SettingsApp {
                    load_error: Some(reason),
                    ..*old(self)
                }),
                Ok(config) => {
                    &&& final(self).document matches Some(document) && document.draft == config
                        && document.saved@ == config@ && !document.new && document.path == path
                    &&& final(self).fields matches Some(fields) && fields@ == fields_of(config@)
                    &&& final(self).load_error is None
                    &&& final(self).page == old(self).page
                    &&& final(self).service_mode == old(self).service_mode
                },
            },
    {
        match answer {
            Err(reason) => {
                self.load_error = Some(reason);
            },
            Ok(config) => {
                self.fields = Some(TextFields::from_config(&config));
                self.document = Some(ConfigDocument::open(path, config, false));
                self.load_error = None;
            },
        }
    }

    /// Something differs from what was last read or written: the draft, or a
    /// field that has not been taken into the draft.
    pub open spec fn is_config_dirty(&self) -> bool {
        self.document matches Some(document) && (document.draft@ != document.saved@ || (
        self.fields matches Some(fields) && fields@ != fields_of(document.draft@)))
    }

    pub fn config_dirty(&self) -> (result: bool)
        requires
            self.wf(),
        ensures
            result == self.is_config_dirty(),
    {
        match &self.document {
            None => false,
            Some(document) => document.is_dirty() || match &self.fields {
                None => false,
                Some(fields) => !fields.same_as(&TextFields::from_config(&document.draft)),
            },
        }
    }

    /// Takes the fields into the draft. What is wrong with them leaves the draft
    /// as it was; the service's configuration is never edited.
    pub fn sync_fields(&mut self) -> (result: Result<(), SyncError>)
        requires
            old(self).wf(),
        ensures
            final(self).wf(),
            if old(self).service_mode {
                result is Ok && *final(self) == *old(self)
            } else if old(self).document is None {
                result == Err::<(), SyncError>(SyncError::NoConfiguration) && *final(self)
                    == *old(self)
            } else if old(self).fields is None {
                result == Err::<(), SyncError>(SyncError::NoFields) && *final(self)
                    == *old(self)
            } else {
                let draft = old(self).document->0.draft@;
                let fields = old(self).fields->0@;
                match result {
                    Ok(_) => {
                        &&& common_error(fields) is None
                        &&& forall|name: Seq<char>|
                            #[trigger] peer_error(fields, draft, name) is None
                        &&& final(self).document is Some
                        &&& final(self).document->0.draft@ == edited(fields, draft)
                        &&& final(self).document->0 == (ConfigDocument {
                            draft: final(self).document->0.draft,
                            ..old(self).document->0
                        })
                        &&& *final(self) == (SettingsApp {
                            document: final(self).document,
                            ..*old(self)
                        })
                    },
                    Err(error) => {
                        &&& error matches SyncError::Field(problem)
                        &&& match common_error(fields) {
                            Some(common) => problem == common,
                            None => problem matches FieldError::Peer(name, wrong) && peer_error(
                                fields,
                                draft,
                                name@,
                            ) == Some(wrong),
                        }
                        &&& *final(self) == *old(self)
                    },
                }
            },
    {
        if self.service_mode {
            return Ok(());
        }
        match &mut self.document {
            None => Err(SyncError::NoConfiguration),
            Some(document) => match &self.fields {
                None => Err(SyncError::NoFields),
                Some(fields) => match fields.apply(&document.draft) {
                    Ok(draft) => {
                        document.draft = draft;
                        Ok(())
                    },
                    Err(error) => Err(SyncError::Field(error)),
                },
            },
        }
    }

    /// The draft was written.
    pub fn saved(&mut self)
        requires
            old(self).wf(),
        ensures
            final(self).wf(),
            !final(self).is_config_dirty(),
            match old(self).document {
                None => *final(self) == *old(self),
                Some(document) => {
                    &&& final(self).document is Some
                    &&& final(self).document->0.draft == document.draft
                    &&& final(self).document->0.saved@ == document.draft@
                    &&& final(self).document->0.path == document.path
                    &&& !final(self).document->0.new
                    &&& final(self).fields matches Some(fields) && fields@ == fields_of(
                        document.draft@,
                    )
                    &&& final(self).page == old(self).page
                    &&& final(self).service_mode == old(self).service_mode
                    &&& final(self).load_error == old(self).load_error
                },
            },
    {
        let fields = match &mut self.document {
            None => return,
            Some(document) => {
                document.saved = document.draft.copy();
                document.new = false;
                TextFields::from_config(&document.draft)
            },
        };
        self.fields = Some(fields);
    }
}

} // verus!
