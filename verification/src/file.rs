//! The top-level server configuration, loaded from a TOML document.
//!
//! [`ConfigFile::parse_toml`] turns configuration text into a validated
//! [`ConfigFile`]: `host`, `port` and `verbose` are required, `root_dir`
//! and the `[tls]` table are optional.  Reading the text from disk is the
//! caller's concern; this module only parses and validates.

use vstd::prelude::*;
use vstd::string::StringExecFns;

use crate::ip::{parse_ip, spec_parse_ip, IpAddr};
use crate::toml_doc::{
    toml_as_bool, toml_as_integer, toml_as_str, toml_document, toml_error_text, toml_get,
    toml_is_table, toml_node, toml_parse_value, TomlNode,
};

verus! {

/// The private key algorithm named by the `key_algorithm` field of a
/// `[tls]` table.
#[derive(Clone, Copy, Debug, PartialEq, Eq, Structural)]
pub enum PrivateKeyAlgorithm {
    Rsa,
    Pkcs8,
}

/// The `[tls]` sub-table of a configuration document.  This core only
/// carries it; interpreting the paths and the key material belongs to the
/// TLS subsystem.
#[derive(Clone, Debug, PartialEq, Eq)]
pub struct TlsConfigFile {
    pub cert: String,
    pub key: String,
    pub key_algorithm: PrivateKeyAlgorithm,
}

/// The mathematical value of a [`TlsConfigFile`].
#[verifier::ext_equal]
pub struct TlsConfigFileV {
    pub cert: Seq<char>,
    pub key: Seq<char>,
    pub key_algorithm: PrivateKeyAlgorithm,
}

impl View for TlsConfigFile {
    type V = TlsConfigFileV;

    open spec fn view(&self) -> TlsConfigFileV {
        TlsConfigFileV {
            cert: self.cert@,
            key: self.key@,
            key_algorithm: self.key_algorithm,
        }
    }
}

/// The top-level server configuration: bind address and port, verbosity,
/// an optional root directory, and an optional TLS sub-configuration.
/// Constructed once from a configuration document and read-only thereafter.
#[derive(Clone, Debug, PartialEq, Eq)]
pub struct ConfigFile {
    pub host: IpAddr,
    pub port: u16,
    pub verbose: bool,
    pub root_dir: Option<String>,
    pub tls: Option<TlsConfigFile>,
}

/// The mathematical value of a [`ConfigFile`].
#[verifier::ext_equal]
pub struct ConfigFileV {
    pub host: IpAddr,
    pub port: u16,
    pub verbose: bool,
    pub root_dir: Option<Seq<char>>,
    pub tls: Option<TlsConfigFileV>,
}

impl View for ConfigFile {
    type V = ConfigFileV;

    open spec fn view(&self) -> ConfigFileV {
        ConfigFileV {
            host: self.host,
            port: self.port,
            verbose: self.verbose,
            root_dir: self.root_dir.deep_view(),
            tls: match self.tls {
                Some(t) => Some(t@),
                None => None,
            },
        }
    }
}

/// Why a configuration document was rejected.  `Syntax` carries the TOML
/// parser's message for malformed text; the other variants carry the name
/// of the offending field.
#[derive(Clone, Debug, PartialEq, Eq)]
pub enum ParseError {
    /// The text is not well-formed TOML, or its top level is not a table.
    Syntax(String),
    /// A required field is absent.
    MissingField(String),
    /// A field holds a value of the wrong type.
    WrongType(String),
    /// A field holds a value of the right type outside the allowed values.
    InvalidValue(String),
}

/// The mathematical value of a [`ParseError`].
pub enum ParseErrorV {
    Syntax(Seq<char>),
    MissingField(Seq<char>),
    WrongType(Seq<char>),
    InvalidValue(Seq<char>),
}

impl View for ParseError {
    type V = ParseErrorV;

    open spec fn view(&self) -> ParseErrorV {
        match self {
            ParseError::Syntax(d) => ParseErrorV::Syntax(d@),
            ParseError::MissingField(f) => ParseErrorV::MissingField(f@),
            ParseError::WrongType(f) => ParseErrorV::WrongType(f@),
            ParseError::InvalidValue(f) => ParseErrorV::InvalidValue(f@),
        }
    }
}

/// The text of a parse error: a fixed prefix, then what went wrong, naming
/// the offending field.  Field checks run after the untyped parse, which
/// keeps no spans, so a missing field is always reported at the document
/// start, and the wrong-type and invalid-value renderings name the field
/// without a location.
pub open spec fn spec_message(e: ParseErrorV) -> Seq<char> {
    match e {
        ParseErrorV::Syntax(d) => "Failed to parse config from file. "@ + d,
        ParseErrorV::MissingField(f) => "Failed to parse config from file. missing field `"@ + f
            + "` at line 1 column 1"@,
        ParseErrorV::WrongType(f) => "Failed to parse config from file. wrong type for field `"@
            + f + "`"@,
        ParseErrorV::InvalidValue(f) =>
        "Failed to parse config from file. invalid value for field `"@ + f + "`"@,
    }
}

impl ParseError {
    /// Renders the error, as [`spec_message`] describes.
    pub fn message(&self) -> (r: String)
        ensures
            r@ == spec_message(self@),
    {
        match self {
            ParseError::Syntax(d) => {
                let mut m = String::from_str("Failed to parse config from file. ");
                m.append(d.as_str());
                m
            },
            ParseError::MissingField(f) => {
                let mut m = String::from_str("Failed to parse config from file. missing field `");
                m.append(f.as_str());
                m.append("` at line 1 column 1");
                m
            },
            ParseError::WrongType(f) => {
                let mut m = String::from_str(
                    "Failed to parse config from file. wrong type for field `",
                );
                m.append(f.as_str());
                m.append("`");
                m
            },
            ParseError::InvalidValue(f) => {
                let mut m = String::from_str(
                    "Failed to parse config from file. invalid value for field `",
                );
                m.append(f.as_str());
                m.append("`");
                m
            },
        }
    }
}

/// Looks a required string field up in a table.
pub open spec fn spec_req_string(m: Map<Seq<char>, TomlNode>, key: Seq<char>) -> Result<
    Seq<char>,
    ParseErrorV,
> {
    if !m.contains_key(key) {
        Err(ParseErrorV::MissingField(key))
    } else {
        match m[key] {
            TomlNode::Str(s) => Ok(s),
            _ => Err(ParseErrorV::WrongType(key)),
        }
    }
}

/// The `host` field: a required string holding an IP literal.
pub open spec fn spec_host(m: Map<Seq<char>, TomlNode>) -> Result<IpAddr, ParseErrorV> {
    match spec_req_string(m, "host"@) {
        Ok(s) => match spec_parse_ip(s) {
            Some(ip) => Ok(ip),
            None => Err(ParseErrorV::InvalidValue("host"@)),
        },
        Err(e) => Err(e),
    }
}

/// The `port` field: a required integer within sixteen bits.
pub open spec fn spec_port(m: Map<Seq<char>, TomlNode>) -> Result<u16, ParseErrorV> {
    if !m.contains_key("port"@) {
        Err(ParseErrorV::MissingField("port"@))
    } else {
        match m["port"@] {
            TomlNode::Int(i) => if 0 <= i <= 65535 {
                Ok(i as u16)
            } else {
                Err(ParseErrorV::InvalidValue("port"@))
            },
            _ => Err(ParseErrorV::WrongType("port"@)),
        }
    }
}

/// The `verbose` field: a required boolean.
pub open spec fn spec_verbose(m: Map<Seq<char>, TomlNode>) -> Result<bool, ParseErrorV> {
    if !m.contains_key("verbose"@) {
        Err(ParseErrorV::MissingField("verbose"@))
    } else {
        match m["verbose"@] {
            TomlNode::Bool(b) => Ok(b),
            _ => Err(ParseErrorV::WrongType("verbose"@)),
        }
    }
}

/// The `root_dir` field: an optional string; absence is not an error.
pub open spec fn spec_root_dir(m: Map<Seq<char>, TomlNode>) -> Result<
    Option<Seq<char>>,
    ParseErrorV,
> {
    if !m.contains_key("root_dir"@) {
        Ok(None)
    } else {
        match m["root_dir"@] {
            TomlNode::Str(s) => Ok(Some(s)),
            _ => Err(ParseErrorV::WrongType("root_dir"@)),
        }
    }
}

/// The body of a `[tls]` table: `cert`, `key` and `key_algorithm` are all
/// required, and the algorithm must be `"rsa"` or `"pkcs8"`.
pub open spec fn spec_tls_table(tm: Map<Seq<char>, TomlNode>) -> Result<
    TlsConfigFileV,
    ParseErrorV,
> {
    match spec_req_string(tm, "cert"@) {
        Err(e) => Err(e),
        Ok(cert) => match spec_req_string(tm, "key"@) {
            Err(e) => Err(e),
            Ok(key) => match spec_req_string(tm, "key_algorithm"@) {
                Err(e) => Err(e),
                Ok(alg) => if alg == "rsa"@ {
                    Ok(TlsConfigFileV { cert, key, key_algorithm: PrivateKeyAlgorithm::Rsa })
                } else if alg == "pkcs8"@ {
                    Ok(TlsConfigFileV { cert, key, key_algorithm: PrivateKeyAlgorithm::Pkcs8 })
                } else {
                    Err(ParseErrorV::InvalidValue("key_algorithm"@))
                },
            },
        },
    }
}

/// The `tls` field: an optional table; absence is not an error.
pub open spec fn spec_tls(m: Map<Seq<char>, TomlNode>) -> Result<
    Option<TlsConfigFileV>,
    ParseErrorV,
> {
    if !m.contains_key("tls"@) {
        Ok(None)
    } else {
        match m["tls"@] {
            TomlNode::Table(tm) => match spec_tls_table(tm) {
                Ok(t) => Ok(Some(t)),
                Err(e) => Err(e),
            },
            _ => Err(ParseErrorV::WrongType("tls"@)),
        }
    }
}

/// What a well-formed configuration document yields: the validated
/// configuration, or the first error in field order `host`, `port`,
/// `verbose`, `root_dir`, `tls`.
pub open spec fn spec_config_of(m: Map<Seq<char>, TomlNode>) -> Result<ConfigFileV, ParseErrorV> {
    match spec_host(m) {
        Err(e) => Err(e),
        Ok(host) => match spec_port(m) {
            Err(e) => Err(e),
            Ok(port) => match spec_verbose(m) {
                Err(e) => Err(e),
                Ok(verbose) => match spec_root_dir(m) {
                    Err(e) => Err(e),
                    Ok(root_dir) => match spec_tls(m) {
                        Err(e) => Err(e),
                        Ok(tls) => Ok(ConfigFileV { host, port, verbose, root_dir, tls }),
                    },
                },
            },
        },
    }
}

impl ConfigFile {
    /// The default configuration file name, used when the caller supplies
    /// no path.
    pub fn default_path() -> (r: String)
        ensures
            r@ == "server.toml"@,
    {
        "server.toml".to_owned()
    }

    /// Parses configuration text.  Malformed TOML is a `Syntax` error
    /// carrying the parser's own message verbatim; a well-formed document
    /// whose top level is not a table is a `Syntax` error too; a top-level
    /// table yields exactly what [`spec_config_of`] says of it: `host`,
    /// `port` and `verbose` are required (a missing one is reported by
    /// name), `root_dir` and `tls` are optional.
    pub fn parse_toml(content: &str) -> (r: Result<ConfigFile, ParseError>)
        ensures
            toml_document(content@) is None ==> (r matches Err(e) && e@ == ParseErrorV::Syntax(
                toml_error_text(content@),
            )),
            (toml_document(content@) matches Some(doc) && !(doc is Table)) ==> (r matches Err(e)
                && e@ == ParseErrorV::Syntax("expected a table at the top level"@)),
            toml_document(content@) matches Some(TomlNode::Table(m)) ==> (match r {
                Ok(c) => spec_config_of(m) == Ok::<ConfigFileV, ParseErrorV>(c@),
                Err(e) => spec_config_of(m) == Err::<ConfigFileV, ParseErrorV>(e@),
            }),
    {
        let doc = match toml_parse_value(content) {
            Ok(v) => v,
            Err(msg) => {
                return Err(ParseError::Syntax(msg));
            },
        };
        if !toml_is_table(&doc) {
            return Err(ParseError::Syntax("expected a table at the top level".to_owned()));
        }
        let ghost m = toml_node(doc)->Table_0;

        let host_value = match toml_get(&doc, "host") {
            Some(h) => h,
            None => {
                return Err(ParseError::MissingField("host".to_owned()));
            },
        };
        let host_str = match toml_as_str(host_value) {
            Some(s) => s,
            None => {
                return Err(ParseError::WrongType("host".to_owned()));
            },
        };
        let host = match parse_ip(host_str) {
            Some(ip) => ip,
            None => {
                return Err(ParseError::InvalidValue("host".to_owned()));
            },
        };

        let port_value = match toml_get(&doc, "port") {
            Some(p) => p,
            None => {
                return Err(ParseError::MissingField("port".to_owned()));
            },
        };
        let port_int = match toml_as_integer(port_value) {
            Some(i) => i,
            None => {
                return Err(ParseError::WrongType("port".to_owned()));
            },
        };
        if port_int < 0 || port_int > 65535 {
            return Err(ParseError::InvalidValue("port".to_owned()));
        }
        let port = port_int as u16;

        let verbose_value = match toml_get(&doc, "verbose") {
            Some(v) => v,
            None => {
                return Err(ParseError::MissingField("verbose".to_owned()));
            },
        };
        let verbose = match toml_as_bool(verbose_value) {
            Some(b) => b,
            None => {
                return Err(ParseError::WrongType("verbose".to_owned()));
            },
        };

        let root_dir = match toml_get(&doc, "root_dir") {
            None => None,
            Some(root_value) => match toml_as_str(root_value) {
                Some(s) => Some(s.to_owned()),
                None => {
                    return Err(ParseError::WrongType("root_dir".to_owned()));
                },
            },
        };

        let tls = match toml_get(&doc, "tls") {
            None => None,
            Some(tls_value) => {
                if !toml_is_table(tls_value) {
                    return Err(ParseError::WrongType("tls".to_owned()));
                }
                let cert = match toml_get(tls_value, "cert") {
                    Some(cert_value) => match toml_as_str(cert_value) {
                        Some(s) => s.to_owned(),
                        None => {
                            return Err(ParseError::WrongType("cert".to_owned()));
                        },
                    },
                    None => {
                        return Err(ParseError::MissingField("cert".to_owned()));
                    },
                };
                let key = match toml_get(tls_value, "key") {
                    Some(key_value) => match toml_as_str(key_value) {
                        Some(s) => s.to_owned(),
                        None => {
                            return Err(ParseError::WrongType("key".to_owned()));
                        },
                    },
                    None => {
                        return Err(ParseError::MissingField("key".to_owned()));
                    },
                };
                let alg_str = match toml_get(tls_value, "key_algorithm") {
                    Some(alg_value) => match toml_as_str(alg_value) {
                        Some(s) => s,
                        None => {
                            return Err(ParseError::WrongType("key_algorithm".to_owned()));
                        },
                    },
                    None => {
                        return Err(ParseError::MissingField("key_algorithm".to_owned()));
                    },
                };
                let alg_string = alg_str.to_owned();
                let key_algorithm = if alg_string == "rsa".to_owned() {
                    PrivateKeyAlgorithm::Rsa
                } else if alg_string == "pkcs8".to_owned() {
                    PrivateKeyAlgorithm::Pkcs8
                } else {
                    return Err(ParseError::InvalidValue("key_algorithm".to_owned()));
                };
                Some(TlsConfigFile { cert, key, key_algorithm })
            },
        };

        let config = ConfigFile { host, port, verbose, root_dir, tls };
        proof {
            assert(spec_config_of(m) matches Ok(cv) && cv =~= config@);
        }
        Ok(config)
    }
}

} // verus!
