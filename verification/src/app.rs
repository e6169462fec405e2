//! The state of a run without a subcommand.
use vstd::prelude::*;

use crate::config::Config;
use crate::server::{row_of, HostEntry, Hosts, ServerCollection, ServerRow};

verus! {

/// The configuration and the servers of a run.
pub struct App {
    config: Config,
    collection: ServerCollection,
}

impl App {
    pub closed spec fn config(&self) -> Config {
        self.config
    }

    pub closed spec fn collection(&self) -> ServerCollection {
        self.collection
    }

    /// Starts with the stored servers, or with none where they cannot be read.
    pub fn init(config: Config, stored: Option<ServerCollection>) -> (r: Self)
        ensures
            r.config() == config,
            r.collection()@ == match stored {
                Some(c) => c@,
                None => Hosts::empty(),
            },
    {
        let collection = match stored {
            Some(c) => c,
            None => ServerCollection::default(),
        };
        App { config, collection }
    }

    pub fn get_config(&self) -> (r: &Config)
        ensures
            *r == self.config(),
    {
        &self.config
    }

    pub fn get_collection(&self) -> (r: &ServerCollection)
        ensures
            *r == self.collection(),
    {
        &self.collection
    }

    pub fn get_collection_mut(&mut self) -> (r: &mut ServerCollection)
        ensures
            *r == old(self).collection(),
            final(self).collection() == *final(r),
            final(self).config() == old(self).config(),
    {
        &mut self.collection
    }

    /// The rows that replace those in the database.
    pub fn save_collection(&self) -> (r: Vec<ServerRow>)
        ensures
            r@.map_values(|row: ServerRow| row@) == self.collection()@.map_values(
                |e: HostEntry<Seq<char>>| row_of(e),
            ),
    {
        self.collection.save_to_storage()
    }
}

} // verus!
