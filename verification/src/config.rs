use vstd::prelude::*;
use vstd::string::StringExecFns;
use crate::level::LogLevel;
use crate::sink::SinkType;
use crate::text::texts;

verus! {

/// Why a configuration could not be built from the values found in the configuration file.
#[derive(Debug)]
pub enum LoadError {
    /// A required key is absent; holds the key.
    MissingField(String),
    /// A key names a variant that does not exist; holds the offending value.
    UnknownVariant(String),
    /// The file could not be read or a value has the wrong type; holds a description.
    Malformed(String),
}

/// A configuration section that can be built from the values read from the configuration file.
pub trait ConfigTrait: Sized + Default {
    /// The values of the section's keys as found in the file (`None` where a key is absent).
    type Fields;

    fn load(fields: Self::Fields) -> Result<Self, LoadError>;
}

/// Pipeline configuration: the minimum level, async settings and the sinks to use.
pub struct LogConfig {
    pub level: LogLevel,
    pub enable_async: bool,
    pub buffer_size: usize,
    pub sink_type: Vec<SinkType>,
}

/// The pipeline keys as found in the configuration file.
pub struct LogConfigFields {
    pub level: Option<String>,
    pub enable_async: Option<bool>,
    pub buffer_size: Option<usize>,
    pub sink_type: Option<Vec<String>>,
}

/// The first name in `names` that is not a sink type, if any.
pub open spec fn first_unknown_sink(names: Seq<Seq<char>>) -> Option<Seq<char>>
    decreases names.len(),
{
    if names.len() == 0 {
        None
    } else if SinkType::spec_from_name(names[0]) is None {
        Some(names[0])
    } else {
        first_unknown_sink(names.drop_first())
    }
}

/// The sink types named by `names` (meaningful when every name is known).
pub open spec fn sink_types_of(names: Seq<Seq<char>>) -> Seq<SinkType> {
    names.map_values(|n: Seq<char>| SinkType::spec_from_name(n)->0)
}

/// A level value that is present but names no level.
pub open spec fn unknown_level(level: Option<String>) -> Option<Seq<char>> {
    match level {
        Some(l) => if LogLevel::spec_from_name(l@) is None {
            Some(l@)
        } else {
            None
        },
        None => None,
    }
}

impl LogConfig {
    /// The first value that names no variant: the level, then the sink list in order.
    pub open spec fn spec_first_unknown(f: LogConfigFields) -> Option<Seq<char>> {
        if unknown_level(f.level) is Some {
            unknown_level(f.level)
        } else {
            match f.sink_type {
                Some(v) => first_unknown_sink(texts(v@)),
                None => None,
            }
        }
    }

    /// The first absent key, in declaration order.
    pub open spec fn spec_first_missing(f: LogConfigFields) -> Option<Seq<char>> {
        if f.level is None {
            Some(seq!['l', 'e', 'v', 'e', 'l'])
        } else if f.enable_async is None {
            Some(seq!['e', 'n', 'a', 'b', 'l', 'e', '_', 'a', 's', 'y', 'n', 'c'])
        } else if f.buffer_size is None {
            Some(seq!['b', 'u', 'f', 'f', 'e', 'r', '_', 's', 'i', 'z', 'e'])
        } else if f.sink_type is None {
            Some(seq!['s', 'i', 'n', 'k', '_', 't', 'y', 'p', 'e'])
        } else {
            None
        }
    }
}

/// Converts sink names to sink types; on failure returns the first unknown name.
fn parse_sink_types(names: &Vec<String>) -> (r: Result<Vec<SinkType>, String>)
    ensures
        match r {
            Ok(v) => first_unknown_sink(texts(names@)) is None && v@ == sink_types_of(texts(names@)),
            Err(s) => first_unknown_sink(texts(names@)) == Some(s@),
        },
{
    let mut out: Vec<SinkType> = Vec::new();
    let mut i: usize = 0;
    assert(texts(names@).skip(0) =~= texts(names@));
    while i < names.len()
        invariant
            i <= names.len(),
            first_unknown_sink(texts(names@)) == first_unknown_sink(texts(names@).skip(i as int)),
            out@ == sink_types_of(texts(names@).take(i as int)),
        decreases names.len() - i,
    {
        assert(texts(names@).skip(i as int)[0] == names@[i as int]@);
        match SinkType::from_name(names[i].as_str()) {
            Some(t) => {
                assert(texts(names@).skip(i as int).drop_first() =~= texts(names@).skip(i + 1));
                out.push(t);
                assert(out@ =~= sink_types_of(texts(names@).take(i + 1)));
            },
            None => {
                return Err(names[i].clone());
            },
        }
        i = i + 1;
    }
    assert(texts(names@).skip(i as int) =~= Seq::<Seq<char>>::empty());
    assert(texts(names@).take(i as int) =~= texts(names@));
    Ok(out)
}

impl Default for LogConfig {
    /// Level `Log`, synchronous, a buffer of 1024 records, console output only.
    fn default() -> (c: Self)
        ensures
            c.level == LogLevel::Log,
            !c.enable_async,
            c.buffer_size == 1024,
            c.sink_type@ == seq![SinkType::Console],
    {
        let mut sinks: Vec<SinkType> = Vec::new();
        sinks.push(SinkType::Console);
        LogConfig { level: LogLevel::Log, enable_async: false, buffer_size: 1024, sink_type: sinks }
    }
}

impl ConfigTrait for LogConfig {
    type Fields = LogConfigFields;

    /// Builds the pipeline configuration. Every key is required; the level and
    /// each sink type must be one of the variant names.
    fn load(fields: LogConfigFields) -> (r: Result<LogConfig, LoadError>)
        ensures
            match r {
                Ok(c) => {
                    &&& LogConfig::spec_first_unknown(fields) is None
                    &&& LogConfig::spec_first_missing(fields) is None
                    &&& Some(c.level) == LogLevel::spec_from_name(fields.level->0@)
                    &&& c.enable_async == fields.enable_async->0
                    &&& c.buffer_size == fields.buffer_size->0
                    &&& c.sink_type@ == sink_types_of(texts(fields.sink_type->0@))
                },
                Err(LoadError::UnknownVariant(v)) => LogConfig::spec_first_unknown(fields) == Some(
                    v@,
                ),
                Err(LoadError::MissingField(k)) => {
                    &&& LogConfig::spec_first_unknown(fields) is None
                    &&& LogConfig::spec_first_missing(fields) == Some(k@)
                },
                Err(LoadError::Malformed(_)) => false,
            },
    {
        let LogConfigFields { level, enable_async, buffer_size, sink_type } = fields;
        let parsed_level = match &level {
            Some(l) => match LogLevel::from_name(l.as_str()) {
                Some(v) => Some(v),
                None => {
                    return Err(LoadError::UnknownVariant(l.clone()));
                },
            },
            None => None,
        };
        let parsed_sinks = match &sink_type {
            Some(names) => match parse_sink_types(names) {
                Ok(v) => Some(v),
                Err(bad) => {
                    return Err(LoadError::UnknownVariant(bad));
                },
            },
            None => None,
        };
        proof {
            reveal_strlit("level");
            reveal_strlit("enable_async");
            reveal_strlit("buffer_size");
            reveal_strlit("sink_type");
        }
        match (parsed_level, enable_async, buffer_size, parsed_sinks) {
            (Some(lv), Some(a), Some(b), Some(s)) => Ok(
                LogConfig { level: lv, enable_async: a, buffer_size: b, sink_type: s },
            ),
            (None, _, _, _) => Err(LoadError::MissingField(String::from_str("level"))),
            (_, None, _, _) => Err(LoadError::MissingField(String::from_str("enable_async"))),
            (_, _, None, _) => Err(LoadError::MissingField(String::from_str("buffer_size"))),
            (_, _, _, None) => Err(LoadError::MissingField(String::from_str("sink_type"))),
        }
    }
}


/// Reading each sink name gives the sink of that name: when no name is
/// unknown, the loaded list has one entry per name, and the `i`-th sink's name
/// is the `i`-th configured name.
pub proof fn lemma_sink_types_follow_names(names: Seq<Seq<char>>)
    requires
        first_unknown_sink(names) is None,
    ensures
        sink_types_of(names).len() == names.len(),
        forall|i: int|
            0 <= i < names.len() ==> (#[trigger] sink_types_of(names)[i]).spec_name() == names[i],
        forall|i: int|
            0 <= i < names.len() ==> SinkType::spec_from_name(names[i]) == Some(
                #[trigger] sink_types_of(names)[i],
            ),
    decreases names.len(),
{
    if names.len() > 0 {
        lemma_sink_types_follow_names(names.drop_first());
        assert forall|i: int| 0 <= i < names.len() implies (#[trigger] sink_types_of(
            names,
        )[i]).spec_name() == names[i] && SinkType::spec_from_name(names[i]) == Some(
            sink_types_of(names)[i],
        ) by {
            if i > 0 {
                assert(names.drop_first()[i - 1] == names[i]);
                assert(sink_types_of(names.drop_first())[i - 1] == sink_types_of(names)[i]);
            } else {
                let t = SinkType::spec_from_name(names[0])->0;
                crate::sink::lemma_sink_name_round_trip(t);
            }
        }
    }
}

/// Connection settings for the S3 bucket that receives the log files.
pub struct S3Config {
    pub access_key: String,
    pub secret_key: String,
    pub providor_name: String,
    pub bucket: String,
    pub prefix: String,
    pub region: String,
    pub end_point_url: String,
    pub force_path_style: bool,
}

/// The S3 keys as found in the configuration file. The provider name may be
/// written `provider_name` or `providor_name`; the latter wins when both are present.
pub struct S3ConfigFields {
    pub access_key: Option<String>,
    pub secret_key: Option<String>,
    pub providor_name: Option<String>,
    pub provider_name: Option<String>,
    pub bucket: Option<String>,
    pub prefix: Option<String>,
    pub region: Option<String>,
    pub end_point_url: Option<String>,
    pub force_path_style: Option<bool>,
}

impl S3Config {
    /// A usable configuration names credentials, a bucket, a key prefix and an endpoint.
    pub open spec fn spec_is_valid(&self) -> bool {
        &&& self.access_key@.len() > 0
        &&& self.secret_key@.len() > 0
        &&& self.bucket@.len() > 0
        &&& self.prefix@.len() > 0
        &&& self.end_point_url@.len() > 0
    }

    /// True unless the access key, secret key, bucket, prefix or endpoint URL is empty.
    pub fn is_valid(&self) -> (b: bool)
        ensures
            b == self.spec_is_valid(),
    {
        if self.access_key.as_str().is_empty() || self.secret_key.as_str().is_empty()
            || self.bucket.as_str().is_empty() || self.prefix.as_str().is_empty()
            || self.end_point_url.as_str().is_empty() {
            return false;
        }
        true
    }

    /// The first absent key, in declaration order.
    pub open spec fn spec_first_missing(f: S3ConfigFields) -> Option<Seq<char>> {
        if f.access_key is None {
            Some(seq!['a', 'c', 'c', 'e', 's', 's', '_', 'k', 'e', 'y'])
        } else if f.secret_key is None {
            Some(seq!['s', 'e', 'c', 'r', 'e', 't', '_', 'k', 'e', 'y'])
        } else if f.providor_name is None && f.provider_name is None {
            Some(seq!['p', 'r', 'o', 'v', 'i', 'd', 'e', 'r', '_', 'n', 'a', 'm', 'e'])
        } else if f.bucket is None {
            Some(seq!['b', 'u', 'c', 'k', 'e', 't'])
        } else if f.prefix is None {
            Some(seq!['p', 'r', 'e', 'f', 'i', 'x'])
        } else if f.region is None {
            Some(seq!['r', 'e', 'g', 'i', 'o', 'n'])
        } else if f.end_point_url is None {
            Some(seq!['e', 'n', 'd', '_', 'p', 'o', 'i', 'n', 't', '_', 'u', 'r', 'l'])
        } else if f.force_path_style is None {
            Some(
                seq!['f', 'o', 'r', 'c', 'e', '_', 'p', 'a', 't', 'h', '_', 's', 't', 'y', 'l', 'e'],
            )
        } else {
            None
        }
    }
}

/// A configuration is usable exactly when none of the access key, secret key,
/// bucket, prefix and endpoint URL is empty: an empty one of these always makes
/// it unusable, and the provider name, region and path style play no part.
pub proof fn lemma_s3_validity(c: S3Config, d: S3Config)
    ensures
        c.access_key@.len() == 0 ==> !c.spec_is_valid(),
        c.secret_key@.len() == 0 ==> !c.spec_is_valid(),
        c.bucket@.len() == 0 ==> !c.spec_is_valid(),
        c.prefix@.len() == 0 ==> !c.spec_is_valid(),
        c.end_point_url@.len() == 0 ==> !c.spec_is_valid(),
        (c.access_key@.len() > 0 && c.secret_key@.len() > 0 && c.bucket@.len() > 0
            && c.prefix@.len() > 0 && c.end_point_url@.len() > 0) ==> c.spec_is_valid(),
        (c.access_key == d.access_key && c.secret_key == d.secret_key && c.bucket == d.bucket
            && c.prefix == d.prefix && c.end_point_url == d.end_point_url) ==> (c.spec_is_valid()
            == d.spec_is_valid()),
{
}

impl Default for S3Config {
    /// Empty credentials, bucket, prefix and endpoint; region "us-east-1"; path-style addressing.
    fn default() -> (c: Self)
        ensures
            c.access_key@.len() == 0,
            c.secret_key@.len() == 0,
            c.providor_name@.len() == 0,
            c.bucket@.len() == 0,
            c.prefix@.len() == 0,
            c.region@ == seq!['u', 's', '-', 'e', 'a', 's', 't', '-', '1'],
            c.end_point_url@.len() == 0,
            c.force_path_style,
    {
        proof {
            reveal_strlit("");
            reveal_strlit("us-east-1");
        }
        S3Config {
            access_key: String::from_str(""),
            secret_key: String::from_str(""),
            providor_name: String::from_str(""),
            bucket: String::from_str(""),
            prefix: String::from_str(""),
            region: String::from_str("us-east-1"),
            end_point_url: String::from_str(""),
            force_path_style: true,
        }
    }
}

impl ConfigTrait for S3Config {
    type Fields = S3ConfigFields;

    /// Builds the S3 configuration; every key is required.
    fn load(fields: S3ConfigFields) -> (r: Result<S3Config, LoadError>)
        ensures
            match r {
                Ok(c) => {
                    &&& S3Config::spec_first_missing(fields) is None
                    &&& c.access_key == fields.access_key->0
                    &&& c.secret_key == fields.secret_key->0
                    &&& c.providor_name == match fields.providor_name {
                        Some(p) => p,
                        None => fields.provider_name->0,
                    }
                    &&& c.bucket == fields.bucket->0
                    &&& c.prefix == fields.prefix->0
                    &&& c.region == fields.region->0
                    &&& c.end_point_url == fields.end_point_url->0
                    &&& c.force_path_style == fields.force_path_style->0
                },
                Err(LoadError::MissingField(k)) => S3Config::spec_first_missing(fields) == Some(k@),
                Err(_) => false,
            },
    {
        proof {
            reveal_strlit("access_key");
            reveal_strlit("secret_key");
            reveal_strlit("provider_name");
            reveal_strlit("bucket");
            reveal_strlit("prefix");
            reveal_strlit("region");
            reveal_strlit("end_point_url");
            reveal_strlit("force_path_style");
        }
        let S3ConfigFields {
            access_key,
            secret_key,
            providor_name,
            provider_name,
            bucket,
            prefix,
            region,
            end_point_url,
            force_path_style,
        } = fields;
        let access_key = match access_key {
            Some(v) => v,
            None => {
                return Err(LoadError::MissingField(String::from_str("access_key")));
            },
        };
        let secret_key = match secret_key {
            Some(v) => v,
            None => {
                return Err(LoadError::MissingField(String::from_str("secret_key")));
            },
        };
        let providor_name = match (providor_name, provider_name) {
            (Some(v), _) => v,
            (None, Some(v)) => v,
            (None, None) => {
                return Err(LoadError::MissingField(String::from_str("provider_name")));
            },
        };
        let bucket = match bucket {
            Some(v) => v,
            None => {
                return Err(LoadError::MissingField(String::from_str("bucket")));
            },
        };
        let prefix = match prefix {
            Some(v) => v,
            None => {
                return Err(LoadError::MissingField(String::from_str("prefix")));
            },
        };
        let region = match region {
            Some(v) => v,
            None => {
                return Err(LoadError::MissingField(String::from_str("region")));
            },
        };
        let end_point_url = match end_point_url {
            Some(v) => v,
            None => {
                return Err(LoadError::MissingField(String::from_str("end_point_url")));
            },
        };
        let force_path_style = match force_path_style {
            Some(v) => v,
            None => {
                return Err(LoadError::MissingField(String::from_str("force_path_style")));
            },
        };
        Ok(
            S3Config {
                access_key,
                secret_key,
                providor_name,
                bucket,
                prefix,
                region,
                end_point_url,
                force_path_style,
            },
        )
    }
}

/// Settings of the rotating file sink: the directory that holds the log files,
/// the size at which a new file is started, and how many files are kept.
pub struct FileConfig {
    pub dir_path: String,
    pub max_size: Option<u64>,
    pub rotate_num: Option<usize>,
}

/// The file-sink keys as found in the configuration file.
pub struct FileConfigFields {
    pub dir_path: Option<String>,
    pub max_size: Option<u64>,
    pub rotate_num: Option<usize>,
}

impl Default for FileConfig {
    /// No directory and no limits: a file sink with this configuration is disabled.
    fn default() -> (c: Self)
        ensures
            c.dir_path@.len() == 0,
            c.max_size is None,
            c.rotate_num is None,
    {
        proof {
            reveal_strlit("");
        }
        FileConfig { dir_path: String::from_str(""), max_size: None, rotate_num: None }
    }
}

impl ConfigTrait for FileConfig {
    type Fields = FileConfigFields;

    /// Builds the file-sink configuration; the directory is required, the limits are optional.
    fn load(fields: FileConfigFields) -> (r: Result<FileConfig, LoadError>)
        ensures
            match r {
                Ok(c) => {
                    &&& fields.dir_path is Some
                    &&& c.dir_path == fields.dir_path->0
                    &&& c.max_size == fields.max_size
                    &&& c.rotate_num == fields.rotate_num
                },
                Err(LoadError::MissingField(k)) => {
                    &&& fields.dir_path is None
                    &&& k@ == seq!['d', 'i', 'r', '_', 'p', 'a', 't', 'h']
                },
                Err(_) => false,
            },
    {
        proof {
            reveal_strlit("dir_path");
        }
        match fields.dir_path {
            Some(d) => Ok(
                FileConfig { dir_path: d, max_size: fields.max_size, rotate_num: fields.rotate_num },
            ),
            None => Err(LoadError::MissingField(String::from_str("dir_path"))),
        }
    }
}

} // verus!
