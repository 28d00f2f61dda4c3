//! The settings of a run and the mappings that it exports.
use crate::cli::SetArgs;
use crate::error::{Error, ErrorView, text_result};
use vstd::prelude::*;
use vstd::string::*;

verus! {

/// One export: a range of keys, the message type of their values, and the
/// table that takes them.
#[derive(Debug)]
pub struct Mapping {
    /// The first key of the range.
    pub from: String,
    /// The key that ends the range; it is not exported itself.
    pub to: String,
    /// The full name of the message type.
    pub proto: String,
    /// The table, as `<database>.<table_name>`.
    pub table: String,
    /// Fields that go to a column of another name.
    pub custom_field_mapping: Option<Vec<CustomFieldMapping>>,
}

/// A field that goes to a column of another name.
#[derive(Debug)]
pub struct CustomFieldMapping {
    pub from: String,
    pub to: String,
}

/// The settings of a run.
#[derive(Debug)]
pub struct FdbCliConfig {
    /// The version of the settings.
    pub version: String,
    /// Path to the cluster file.
    pub cluster_file: String,
    /// Address of the sink.
    pub database_url: String,
    /// Path to the protobuf file.
    pub proto_file: Option<String>,
    /// Path to the mapping file.
    pub mapping_file: Option<String>,
    /// Path to the certificate authority's file, for a secured sink.
    pub postgres_ca_file: Option<String>,
    /// Path to the certificate chain's file, for a secured sink.
    pub postgres_certificate_chain_file: Option<String>,
    /// Path to the private key's file, for a secured sink.
    pub postgres_private_key_file: Option<String>,
}

/// The settings that the environment may give; `None` leaves one as the file
/// has it.
#[derive(Debug)]
pub struct Overrides {
    pub cluster_file: Option<String>,
    pub database_url: Option<String>,
    pub proto_file: Option<String>,
    pub mapping_file: Option<String>,
    pub postgres_ca_file: Option<String>,
    pub postgres_certificate_chain_file: Option<String>,
    pub postgres_private_key_file: Option<String>,
}

/// How the sink is reached.
#[derive(Debug, PartialEq, Eq)]
pub enum SinkConnection {
    /// Without encryption.
    Plain,
    /// Over TLS, with these three files.
    Secure { ca_file: String, certificate_chain_file: String, private_key_file: String },
}

/// What is said where some, but not all, of the three files are set.
pub open spec fn incomplete_tls() -> ErrorView {
    ErrorView::MissingConfig("Missing certificate file for the secured sink"@)
}

/// The content of a setting that may be absent.
pub open spec fn optional_text(value: Option<String>) -> Option<Seq<char>> {
    match value {
        Some(s) => Some(s@),
        None => None,
    }
}

/// `given` where it is there, else `kept`.
pub open spec fn overridden(kept: Seq<char>, given: Option<String>) -> Seq<char> {
    match given {
        Some(s) => s@,
        None => kept,
    }
}

/// `given` where it is there, else `kept`.
pub open spec fn overridden_optional(kept: Option<String>, given: Option<String>) -> Option<
    Seq<char>,
> {
    match given {
        Some(s) => Some(s@),
        None => optional_text(kept),
    }
}

impl FdbCliConfig {
    /// Where the cluster file lies when nothing says otherwise: on macOS
    /// under `/usr/local/etc`, elsewhere under `/etc`.
    pub fn default_cluster_file(macos: bool) -> (path: &'static str)
        ensures
            path@ == if macos {
                "/usr/local/etc/foundationdb/fdb.cluster"@
            } else {
                "/etc/foundationdb/fdb.cluster"@
            },
    {
        if macos {
            "/usr/local/etc/foundationdb/fdb.cluster"
        } else {
            "/etc/foundationdb/fdb.cluster"
        }
    }

    /// The settings of a run for which nothing was set yet.
    pub fn default(macos: bool) -> (config: FdbCliConfig)
        ensures
            config.version@ == "0.1.0"@,
            config.cluster_file@ == if macos {
                "/usr/local/etc/foundationdb/fdb.cluster"@
            } else {
                "/etc/foundationdb/fdb.cluster"@
            },
            config.database_url@ == "http://localhost:8083"@,
            config.proto_file is None,
            config.mapping_file is None,
            config.postgres_ca_file is None,
            config.postgres_certificate_chain_file is None,
            config.postgres_private_key_file is None,
    {
        FdbCliConfig {
            version: "0.1.0".to_owned(),
            cluster_file: FdbCliConfig::default_cluster_file(macos).to_owned(),
            database_url: "http://localhost:8083".to_owned(),
            proto_file: None,
            mapping_file: None,
            postgres_ca_file: None,
            postgres_certificate_chain_file: None,
            postgres_private_key_file: None,
        }
    }

    /// These settings with each one replaced that the environment gives.
    pub fn with_overrides(self, given: Overrides) -> (config: FdbCliConfig)
        ensures
            config.version@ == self.version@,
            config.cluster_file@ == overridden(self.cluster_file@, given.cluster_file),
            config.database_url@ == overridden(self.database_url@, given.database_url),
            optional_text(config.proto_file) == overridden_optional(
                self.proto_file,
                given.proto_file,
            ),
            optional_text(config.mapping_file) == overridden_optional(
                self.mapping_file,
                given.mapping_file,
            ),
            optional_text(config.postgres_ca_file) == overridden_optional(
                self.postgres_ca_file,
                given.postgres_ca_file,
            ),
            optional_text(config.postgres_certificate_chain_file) == overridden_optional(
                self.postgres_certificate_chain_file,
                given.postgres_certificate_chain_file,
            ),
            optional_text(config.postgres_private_key_file) == overridden_optional(
                self.postgres_private_key_file,
                given.postgres_private_key_file,
            ),
    {
        FdbCliConfig {
            version: self.version,
            cluster_file: match given.cluster_file {
                Some(text) => text,
                None => self.cluster_file,
            },
            database_url: match given.database_url {
                Some(text) => text,
                None => self.database_url,
            },
            proto_file: match given.proto_file {
                Some(text) => Some(text),
                None => self.proto_file,
            },
            mapping_file: match given.mapping_file {
                Some(text) => Some(text),
                None => self.mapping_file,
            },
            postgres_ca_file: match given.postgres_ca_file {
                Some(text) => Some(text),
                None => self.postgres_ca_file,
            },
            postgres_certificate_chain_file: match given.postgres_certificate_chain_file {
                Some(text) => Some(text),
                None => self.postgres_certificate_chain_file,
            },
            postgres_private_key_file: match given.postgres_private_key_file {
                Some(text) => Some(text),
                None => self.postgres_private_key_file,
            },
        }
    }

    /// How the sink is reached: over TLS where the three certificate files
    /// are set, without encryption where none of them is; to have set some
    /// and not the others is an error.
    pub fn sink_connection(&self) -> (r: Result<SinkConnection, Error>)
        ensures
            match (
                self.postgres_ca_file,
                self.postgres_certificate_chain_file,
                self.postgres_private_key_file,
            ) {
                (None, None, None) => r == Ok::<SinkConnection, Error>(SinkConnection::Plain),
                (Some(ca), Some(chain), Some(key)) => r matches Ok(
                    SinkConnection::Secure { ca_file, certificate_chain_file, private_key_file },
                ) && ca_file@ == ca@ && certificate_chain_file@ == chain@ && private_key_file@
                    == key@,
                _ => r matches Err(e) && e@ == incomplete_tls(),
            },
    {
        match (
            &self.postgres_ca_file,
            &self.postgres_certificate_chain_file,
            &self.postgres_private_key_file,
        ) {
            (None, None, None) => Ok(SinkConnection::Plain),
            (Some(ca), Some(chain), Some(key)) => Ok(
                SinkConnection::Secure {
                    ca_file: ca.clone(),
                    certificate_chain_file: chain.clone(),
                    private_key_file: key.clone(),
                },
            ),
            _ => Err(
                Error::MissingConfig("Missing certificate file for the secured sink".to_owned()),
            ),
        }
    }

    /// Takes over the settings that `set` gives and says whether it gave
    /// any.
    pub fn apply(&mut self, set: SetArgs) -> (changed: bool)
        ensures
            changed == (set.cluster_file is Some || set.proto_file is Some || set.database_url
                is Some || set.mapping_file is Some),
            final(self).version@ == old(self).version@,
            final(self).cluster_file@ == overridden(old(self).cluster_file@, set.cluster_file),
            final(self).database_url@ == overridden(old(self).database_url@, set.database_url),
            optional_text(final(self).proto_file) == overridden_optional(
                old(self).proto_file,
                set.proto_file,
            ),
            optional_text(final(self).mapping_file) == overridden_optional(
                old(self).mapping_file,
                set.mapping_file,
            ),
            final(self).postgres_ca_file == old(self).postgres_ca_file,
            final(self).postgres_certificate_chain_file == old(
                self,
            ).postgres_certificate_chain_file,
            final(self).postgres_private_key_file == old(self).postgres_private_key_file,
    {
        let mut changed = false;
        if let Some(cluster_file) = set.cluster_file {
            self.cluster_file = cluster_file;
            changed = true;
        }
        if let Some(proto_file) = set.proto_file {
            self.proto_file = Some(proto_file);
            changed = true;
        }
        if let Some(database_url) = set.database_url {
            self.database_url = database_url;
            changed = true;
        }
        if let Some(mapping_file) = set.mapping_file {
            self.mapping_file = Some(mapping_file);
            changed = true;
        }
        changed
    }

    /// The path of the mapping file; it is an error to have set none.
    pub fn mapping_path(&self) -> (r: Result<String, Error>)
        ensures
            text_result(r) == match self.mapping_file {
                Some(path) => Ok::<Seq<char>, ErrorView>(path@),
                None => Err::<Seq<char>, ErrorView>(
                    ErrorView::MissingConfig("Mapping config not provided"@),
                ),
            },
    {
        match &self.mapping_file {
            Some(path) => Ok(path.clone()),
            None => Err(Error::MissingConfig("Mapping config not provided".to_owned())),
        }
    }

    /// The path of the protobuf file; it is an error to have set none.
    pub fn proto_path(&self) -> (r: Result<String, Error>)
        ensures
            text_result(r) == match self.proto_file {
                Some(path) => Ok::<Seq<char>, ErrorView>(path@),
                None => Err::<Seq<char>, ErrorView>(
                    ErrorView::MissingConfig("Missing protofile definition"@),
                ),
            },
    {
        match &self.proto_file {
            Some(path) => Ok(path.clone()),
            None => Err(Error::MissingConfig("Missing protofile definition".to_owned())),
        }
    }
}

} // verus!
