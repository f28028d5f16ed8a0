use vstd::prelude::*;
use crate::text::same_text;

verus! {

/// The destinations a record can be sent to.
#[derive(Debug, Clone, Copy, PartialEq, Eq, Structural, Hash)]
pub enum SinkType {
    Console,
    File,
    S3,
    Elastic,
}

impl SinkType {
    /// The variant's name, as written in the `sink_type` list of the configuration.
    pub open spec fn spec_name(self) -> Seq<char> {
        match self {
            SinkType::Console => seq!['C', 'o', 'n', 's', 'o', 'l', 'e'],
            SinkType::File => seq!['F', 'i', 'l', 'e'],
            SinkType::S3 => seq!['S', '3'],
            SinkType::Elastic => seq!['E', 'l', 'a', 's', 't', 'i', 'c'],
        }
    }

    /// The sink type whose name is exactly `name`, if any.
    pub open spec fn spec_from_name(name: Seq<char>) -> Option<SinkType> {
        if name == SinkType::Console.spec_name() {
            Some(SinkType::Console)
        } else if name == SinkType::File.spec_name() {
            Some(SinkType::File)
        } else if name == SinkType::S3.spec_name() {
            Some(SinkType::S3)
        } else if name == SinkType::Elastic.spec_name() {
            Some(SinkType::Elastic)
        } else {
            None
        }
    }

    /// The variant's name.
    pub fn name(&self) -> (s: &'static str)
        ensures
            s@ == self.spec_name(),
    {
        proof {
            reveal_strlit("Console");
            reveal_strlit("File");
            reveal_strlit("S3");
            reveal_strlit("Elastic");
        }
        match self {
            SinkType::Console => "Console",
            SinkType::File => "File",
            SinkType::S3 => "S3",
            SinkType::Elastic => "Elastic",
        }
    }

    /// Parses a sink type from its exact, case-sensitive name.
    pub fn from_name(name: &str) -> (r: Option<SinkType>)
        ensures
            r == SinkType::spec_from_name(name@),
    {
        if same_text(name, SinkType::Console.name()) {
            Some(SinkType::Console)
        } else if same_text(name, SinkType::File.name()) {
            Some(SinkType::File)
        } else if same_text(name, SinkType::S3.name()) {
            Some(SinkType::S3)
        } else if same_text(name, SinkType::Elastic.name()) {
            Some(SinkType::Elastic)
        } else {
            None
        }
    }

    /// Whether a handler exists for this sink type; `Elastic` has none yet.
    pub open spec fn spec_is_supported(self) -> bool {
        self != SinkType::Elastic
    }

    pub fn is_supported(&self) -> (b: bool)
        ensures
            b == self.spec_is_supported(),
    {
        match self {
            SinkType::Elastic => false,
            _ => true,
        }
    }
}

/// Reading back the name of a sink type gives that sink type, and each name belongs to one.
pub proof fn lemma_sink_name_round_trip(t: SinkType)
    ensures
        SinkType::spec_from_name(t.spec_name()) == Some(t),
        forall|s: Seq<char>| SinkType::spec_from_name(s) == Some(t) ==> s == t.spec_name(),
{
}

/// The components that can reload their configuration.
#[derive(Debug, Clone, Copy, PartialEq, Eq, Structural, Hash)]
pub enum ReloadTarget {
    /// The log processor (minimum level and sink list).
    Processor,
    /// The S3 sink.
    S3,
    /// The console sink.
    Console,
    /// The file sink.
    File,
}

/// The services whose reload functions `get_reload` gathers, in order.
pub open spec fn service_reloads() -> Seq<ReloadTarget> {
    seq![ReloadTarget::S3, ReloadTarget::Console, ReloadTarget::File]
}

/// Everything reloaded when the configuration file changes: the services,
/// then the log processor.
pub open spec fn reload_order() -> Seq<ReloadTarget> {
    service_reloads().push(ReloadTarget::Processor)
}

/// The services whose configuration is reloaded when the configuration file
/// changes: the S3 sink, the console sink, then the file sink.
pub fn get_reload() -> (targets: Vec<ReloadTarget>)
    ensures
        targets@ == service_reloads(),
{
    let mut targets: Vec<ReloadTarget> = Vec::new();
    targets.push(ReloadTarget::S3);
    targets.push(ReloadTarget::Console);
    targets.push(ReloadTarget::File);
    assert(targets@ =~= service_reloads());
    targets
}

/// Every reloadable component, the processor included, is reloaded once on a change.
pub proof fn lemma_reload_covers_every_component(t: ReloadTarget)
    ensures
        reload_order().contains(t),
        reload_order().no_duplicates(),
{
    let o = reload_order();
    match t {
        ReloadTarget::S3 => assert(o[0] == t),
        ReloadTarget::Console => assert(o[1] == t),
        ReloadTarget::File => assert(o[2] == t),
        ReloadTarget::Processor => assert(o[3] == t),
    }
}

} // verus!
