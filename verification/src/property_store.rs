//! The PipeWire properties of an object that the mixer uses.

use vstd::prelude::*;

use crate::object::ObjectId;
use crate::text::str_eq;

verus! {

#[derive(Debug)]
pub struct PropertyStore {
    pub node_name: Option<String>,
    pub node_nick: Option<String>,
    pub node_description: Option<String>,
    pub media_name: Option<String>,
    pub media_class: Option<String>,
    pub device_name: Option<String>,
    pub device_nick: Option<String>,
    pub device_description: Option<String>,
    pub application_name: Option<String>,
    pub application_process_binary: Option<String>,
    pub object_serial: Option<u64>,
    pub device_id: Option<ObjectId>,
    pub client_id: Option<ObjectId>,
    pub card_profile_device: Option<i32>,
}

/// The store of an object with no properties yet.
pub open spec fn empty_props() -> PropertyStore {
    PropertyStore {
        node_name: None,
        node_nick: None,
        node_description: None,
        media_name: None,
        media_class: None,
        device_name: None,
        device_nick: None,
        device_description: None,
        application_name: None,
        application_process_binary: None,
        object_serial: None,
        device_id: None,
        client_id: None,
        card_profile_device: None,
    }
}

pub open spec fn opt_text(s: Option<String>) -> Option<Seq<char>> {
    match s {
        Some(s) => Some(s@),
        None => None,
    }
}

/// The text of the string property that PipeWire names `name`.
pub open spec fn property_text(p: PropertyStore, name: Seq<char>) -> Option<Seq<char>> {
    if name == "node.name"@ {
        opt_text(p.node_name)
    } else if name == "node.nick"@ {
        opt_text(p.node_nick)
    } else if name == "node.description"@ {
        opt_text(p.node_description)
    } else if name == "media.name"@ {
        opt_text(p.media_name)
    } else if name == "media.class"@ {
        opt_text(p.media_class)
    } else if name == "device.name"@ {
        opt_text(p.device_name)
    } else if name == "device.nick"@ {
        opt_text(p.device_nick)
    } else if name == "device.description"@ {
        opt_text(p.device_description)
    } else if name == "application.name"@ {
        opt_text(p.application_name)
    } else if name == "application.process.binary"@ {
        opt_text(p.application_process_binary)
    } else {
        None
    }
}

fn clone_opt(s: &Option<String>) -> (r: Option<String>)
    ensures
        r == *s,
{
    match s {
        Some(s) => Some(s.clone()),
        None => None,
    }
}

fn ref_text(s: &Option<String>) -> (r: Option<&String>)
    ensures
        match r {
            Some(v) => *s == Some(*v),
            None => *s is None,
        },
{
    match s {
        Some(v) => Some(v),
        None => None,
    }
}

impl PropertyStore {
    pub fn new() -> (p: Self)
        ensures
            p == empty_props(),
    {
        PropertyStore {
            node_name: None,
            node_nick: None,
            node_description: None,
            media_name: None,
            media_class: None,
            device_name: None,
            device_nick: None,
            device_description: None,
            application_name: None,
            application_process_binary: None,
            object_serial: None,
            device_id: None,
            client_id: None,
            card_profile_device: None,
        }
    }

    pub fn duplicate(&self) -> (p: Self)
        ensures
            p == *self,
    {
        PropertyStore {
            node_name: clone_opt(&self.node_name),
            node_nick: clone_opt(&self.node_nick),
            node_description: clone_opt(&self.node_description),
            media_name: clone_opt(&self.media_name),
            media_class: clone_opt(&self.media_class),
            device_name: clone_opt(&self.device_name),
            device_nick: clone_opt(&self.device_nick),
            device_description: clone_opt(&self.device_description),
            application_name: clone_opt(&self.application_name),
            application_process_binary: clone_opt(&self.application_process_binary),
            object_serial: self.object_serial,
            device_id: self.device_id,
            client_id: self.client_id,
            card_profile_device: self.card_profile_device,
        }
    }

    /// The string property that PipeWire names `name`.
    pub fn property(&self, name: &str) -> (value: Option<&String>)
        ensures
            opt_text(match value {
                Some(v) => Some(*v),
                None => None,
            }) == property_text(*self, name@),
    {
        if str_eq(name, "node.name") {
            ref_text(&self.node_name)
        } else if str_eq(name, "node.nick") {
            ref_text(&self.node_nick)
        } else if str_eq(name, "node.description") {
            ref_text(&self.node_description)
        } else if str_eq(name, "media.name") {
            ref_text(&self.media_name)
        } else if str_eq(name, "media.class") {
            ref_text(&self.media_class)
        } else if str_eq(name, "device.name") {
            ref_text(&self.device_name)
        } else if str_eq(name, "device.nick") {
            ref_text(&self.device_nick)
        } else if str_eq(name, "device.description") {
            ref_text(&self.device_description)
        } else if str_eq(name, "application.name") {
            ref_text(&self.application_name)
        } else if str_eq(name, "application.process.binary") {
            ref_text(&self.application_process_binary)
        } else {
            None
        }
    }

    pub fn set_node_name(&mut self, v: String)
        ensures
            *final(self) == (PropertyStore { node_name: Some(v), ..*old(self) }),
    {
        self.node_name = Some(v);
    }

    pub fn set_node_nick(&mut self, v: String)
        ensures
            *final(self) == (PropertyStore { node_nick: Some(v), ..*old(self) }),
    {
        self.node_nick = Some(v);
    }

    pub fn set_node_description(&mut self, v: String)
        ensures
            *final(self) == (PropertyStore { node_description: Some(v), ..*old(self) }),
    {
        self.node_description = Some(v);
    }

    pub fn set_media_name(&mut self, v: String)
        ensures
            *final(self) == (PropertyStore { media_name: Some(v), ..*old(self) }),
    {
        self.media_name = Some(v);
    }

    pub fn set_media_class(&mut self, v: String)
        ensures
            *final(self) == (PropertyStore { media_class: Some(v), ..*old(self) }),
    {
        self.media_class = Some(v);
    }

    pub fn set_device_name(&mut self, v: String)
        ensures
            *final(self) == (PropertyStore { device_name: Some(v), ..*old(self) }),
    {
        self.device_name = Some(v);
    }

    pub fn set_device_nick(&mut self, v: String)
        ensures
            *final(self) == (PropertyStore { device_nick: Some(v), ..*old(self) }),
    {
        self.device_nick = Some(v);
    }

    pub fn set_device_description(&mut self, v: String)
        ensures
            *final(self) == (PropertyStore { device_description: Some(v), ..*old(self) }),
    {
        self.device_description = Some(v);
    }

    pub fn set_application_name(&mut self, v: String)
        ensures
            *final(self) == (PropertyStore { application_name: Some(v), ..*old(self) }),
    {
        self.application_name = Some(v);
    }

    pub fn set_application_process_binary(&mut self, v: String)
        ensures
            *final(self) == (PropertyStore { application_process_binary: Some(v), ..*old(self) }),
    {
        self.application_process_binary = Some(v);
    }

    pub fn set_object_serial(&mut self, v: u64)
        ensures
            *final(self) == (PropertyStore { object_serial: Some(v), ..*old(self) }),
    {
        self.object_serial = Some(v);
    }

    pub fn set_device_id(&mut self, v: ObjectId)
        ensures
            *final(self) == (PropertyStore { device_id: Some(v), ..*old(self) }),
    {
        self.device_id = Some(v);
    }

    pub fn set_client_id(&mut self, v: ObjectId)
        ensures
            *final(self) == (PropertyStore { client_id: Some(v), ..*old(self) }),
    {
        self.client_id = Some(v);
    }

    pub fn set_card_profile_device(&mut self, v: i32)
        ensures
            *final(self) == (PropertyStore { card_profile_device: Some(v), ..*old(self) }),
    {
        self.card_profile_device = Some(v);
    }
}

impl Default for PropertyStore {
    fn default() -> (p: Self)
        ensures
            p == empty_props(),
    {
        PropertyStore::new()
    }
}

} // verus!
