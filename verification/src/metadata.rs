//! Challenge-project metadata: the raw shape read from a project
//! description file, the cleaned-up description used by the rest of the
//! system, and the conversion between the two.

use vstd::prelude::*;

verus! {

/// A cleaned-up project description.
#[derive(Debug)]
pub struct ChallengeProjectDescription {
    /// Name of the project.
    pub cp_name: String,
    /// Main language used by the project.
    pub language: Language,
    /// Pre-built address URL for the container image.
    pub docker_image: Option<String>,
    /// Set of sources required.
    pub cp_sources: Vec<SourceEntry>,
    /// Sanitizers, keyed by identifier.
    pub sanitizers: Vec<(SanitizerId, String)>,
    /// Harnesses available, keyed by identifier.
    pub harnesses: Vec<(HarnessId, HarnessEntry)>,
}

/// Supported languages.
#[derive(PartialEq, Eq, Structural, Clone, Copy, Debug)]
pub enum Language {
    C,
    Java,
}

/// Identifier of a sanitizer.
#[derive(PartialEq, Eq, PartialOrd, Ord, Debug)]
pub struct SanitizerId(pub String);

/// Identifier of a harness.
#[derive(PartialEq, Eq, PartialOrd, Ord, Debug)]
pub struct HarnessId(pub String);

/// Description of a harness.
#[derive(Debug)]
pub struct HarnessEntry {
    /// Name of the harness.
    pub name: String,
    /// Path to source code of the harness, if available.
    pub source: Option<String>,
    /// Path to binary of the harness, if available.
    pub binary: Option<String>,
}

/// Description of a source-code entry.
#[derive(Debug)]
pub struct SourceEntry {
    /// Address of the repository.
    pub address: String,
    /// Tag or commit of the repository.
    pub source_ref: Option<String>,
    /// Local path to the directory of the source.
    pub path: String,
    /// Relative paths to artifacts.
    pub artifacts: Option<Vec<String>>,
}

/// A project description as read from the description file, before
/// validation.
#[derive(Debug)]
pub struct ProjectDescriptionRaw {
    /// Name of the project.
    pub cp_name: Option<String>,
    /// Target language used by the project.
    pub language: Option<RawLanguage>,
    /// Address of the full challenge project's repository.
    pub cp_address: Option<String>,
    /// Source-code entries, keyed by identifier.
    pub cp_sources: Option<Vec<(String, SourceEntryRaw)>>,
    /// Older shape: target directory to source address.
    pub cp_source_address: Option<Vec<(String, String)>>,
    /// Pre-built container image base.
    pub docker_image: Option<MaybePath>,
    /// Sanitizers available for this project.
    pub sanitizers: Option<Vec<(String, Sanitizer)>>,
    /// Harnesses provided by this project.
    pub harnesses: Option<Vec<(String, Harness)>>,
}

/// A source entry as read from the description file.
#[derive(Debug)]
pub struct SourceEntryRaw {
    /// Source code address.
    pub address: String,
    /// Older shape of the target directory.
    pub directory: Option<String>,
    /// Referenced commit; the main branch when absent.
    pub referenced_commit: Option<String>,
    /// Artifacts available.
    pub artifacts: Option<Vec<String>>,
}

/// A language as read from the description file: anything unrecognised is
/// kept for the error message.
#[derive(PartialEq, Eq, Debug)]
pub enum RawLanguage {
    C,
    Java,
    Unknown(String),
}

/// A sanitizer as read from the description file.
#[derive(PartialEq, Eq, Debug)]
pub struct Sanitizer(pub String);

/// A harness as read from the description file.
#[derive(Debug)]
pub struct Harness {
    /// Name of the harness.
    pub name: Option<String>,
    /// Path to source of the harness.
    pub source: Option<MaybePath>,
    /// Path to binary of the harness, if available.
    pub binary: Option<MaybePath>,
}

/// A path field that may read `n/a`.
#[derive(PartialEq, Eq, Debug)]
pub enum MaybePath {
    NoPath,
    Path(String),
}

/// Why a raw description cannot be converted.
#[derive(PartialEq, Eq, Debug)]
pub enum ParsingError {
    ContentError(String),
}

/// What `str::to_uppercase` returns: a function of the characters alone.
pub uninterp spec fn spec_uppercase(s: Seq<char>) -> Seq<char>;

/// Relies on `str::to_uppercase`: Unicode uppercasing, independent of any
/// locale or environment.
#[verifier::external_body]
fn to_uppercase_str(s: &str) -> (r: String)
    ensures
        r@ == spec_uppercase(s@),
{
    s.to_uppercase()
}

impl RawLanguage {
    /// Read a language field: `C` and `Java` in any case are recognised;
    /// anything else is kept as unknown.
    pub fn try_from(value: String) -> (r: Result<RawLanguage, ParsingError>)
        ensures
            r matches Result::Ok(l),
            spec_uppercase(value@) == "C"@ ==> r == Result::<RawLanguage, ParsingError>::Ok(
                RawLanguage::C,
            ),
            spec_uppercase(value@) == "JAVA"@ ==> r == Result::<RawLanguage, ParsingError>::Ok(
                RawLanguage::Java,
            ),
            spec_uppercase(value@) != "C"@ && spec_uppercase(value@) != "JAVA"@ ==> (r matches
                Result::Ok(l) && l matches RawLanguage::Unknown(u) && u == value),
    {
        proof {
            reveal_strlit("C");
            reveal_strlit("JAVA");
            assert("C"@ != "JAVA"@) by {
                assert("C"@.len() == 1);
                assert("JAVA"@.len() == 4);
            }
        }
        let upper = to_uppercase_str(value.as_str());
        let c = "C".to_owned();
        let java = "JAVA".to_owned();
        if upper.eq(&c) {
            Result::Ok(RawLanguage::C)
        } else if upper.eq(&java) {
            Result::Ok(RawLanguage::Java)
        } else {
            Result::Ok(RawLanguage::Unknown(value))
        }
    }
}

impl Sanitizer {
    /// Read a sanitizer field: any string is accepted.
    pub fn try_from(value: String) -> (r: Result<Sanitizer, ParsingError>)
        ensures
            r matches Result::Ok(s) && s.0 == value,
    {
        Result::Ok(Sanitizer(value))
    }
}

impl MaybePath {
    /// Read a path field: `n/a` in any case means no path.
    pub fn try_from(value: String) -> (r: Result<MaybePath, ParsingError>)
        ensures
            spec_uppercase(value@) == "N/A"@ ==> r == Result::<MaybePath, ParsingError>::Ok(
                MaybePath::NoPath,
            ),
            spec_uppercase(value@) != "N/A"@ ==> (r matches Result::Ok(p) && p matches
                MaybePath::Path(q) && q == value),
    {
        let upper = to_uppercase_str(value.as_str());
        let na = "N/A".to_owned();
        if upper.eq(&na) {
            Result::Ok(MaybePath::NoPath)
        } else {
            Result::Ok(MaybePath::Path(value))
        }
    }
}

/// The first harness, from `i` on, whose source or binary field is absent.
pub open spec fn spec_first_bad_harness(hs: Seq<(String, Harness)>, i: int) -> Option<int>
    decreases hs.len() - i,
{
    if i < 0 || i >= hs.len() {
        Option::None
    } else if hs[i].1.source is None || hs[i].1.binary is None {
        Option::Some(i)
    } else {
        spec_first_bad_harness(hs, i + 1)
    }
}

/// The message of the first conversion error of a raw description, if any:
/// the checks run in the order the fields are listed.
pub open spec fn spec_convert_error(raw: ProjectDescriptionRaw) -> Option<Seq<char>> {
    if raw.cp_name is None {
        Option::Some("No cp name provided"@)
    } else if raw.language is None {
        Option::Some("No language provided"@)
    } else if raw.language->Some_0 is Unknown {
        Option::Some("Unsupported language: "@ + (raw.language->Some_0)->Unknown_0@)
    } else if raw.docker_image is None {
        Option::Some("No docker path provided"@)
    } else if raw.sanitizers is None {
        Option::Some("No sanitizers provided"@)
    } else if raw.harnesses is None {
        Option::Some("No harnesses provided"@)
    } else {
        match spec_first_bad_harness((raw.harnesses->Some_0)@, 0) {
            Option::Some(j) => if (raw.harnesses->Some_0)@[j].1.source is None {
                Option::Some("Source error"@)
            } else {
                Option::Some("Binary error"@)
            },
            Option::None => Option::None,
        }
    }
}

/// A converted sanitizer keeps its identifier and description.
pub open spec fn spec_sanitizer_matches(out: (SanitizerId, String), raw: (String, Sanitizer)) -> bool {
    (out.0).0@ == raw.0@ && out.1@ == (raw.1).0@
}

/// A converted harness keeps its identifier, takes the identifier for a
/// missing name, and flattens its path fields.
pub open spec fn spec_harness_matches(out: (HarnessId, HarnessEntry), raw: (String, Harness)) -> bool {
    &&& (out.0).0@ == raw.0@
    &&& out.1.name@ == (match raw.1.name {
        Option::Some(n) => n@,
        Option::None => raw.0@,
    })
    &&& (match raw.1.source {
        Option::Some(MaybePath::NoPath) => out.1.source is None,
        Option::Some(MaybePath::Path(p)) => out.1.source matches Option::Some(q) && q@ == p@,
        Option::None => false,
    })
    &&& (match raw.1.binary {
        Option::Some(MaybePath::NoPath) => out.1.binary is None,
        Option::Some(MaybePath::Path(p)) => out.1.binary matches Option::Some(q) && q@ == p@,
        Option::None => false,
    })
}

/// A converted source entry keeps its address and artifacts, defaults the
/// commit to the main branch, and takes the identifier for a missing
/// directory.
pub open spec fn spec_source_matches(out: SourceEntry, raw: (String, SourceEntryRaw)) -> bool {
    &&& out.address@ == raw.1.address@
    &&& (match raw.1.referenced_commit {
        Option::Some(c) => out.source_ref matches Option::Some(s) && s@ == c@,
        Option::None => out.source_ref matches Option::Some(s) && s@ == "main"@,
    })
    &&& out.path@ == (match raw.1.directory {
        Option::Some(d) => d@,
        Option::None => raw.0@,
    })
    &&& (match raw.1.artifacts {
        Option::None => out.artifacts is None,
        Option::Some(a) => out.artifacts matches Option::Some(b) && b@.len() == a@.len() && (
        forall|t: int| 0 <= t < a@.len() ==> b@[t]@ == a@[t]@),
    })
}

/// An older-shape source entry keeps its directory and address and
/// defaults everything else.
pub open spec fn spec_address_matches(out: SourceEntry, raw: (String, String)) -> bool {
    &&& out.address@ == raw.1@
    &&& out.source_ref matches Option::Some(s) && s@ == "main"@
    &&& out.path@ == raw.0@
    &&& out.artifacts is None
}

/// Clone a vector of strings.
fn clone_strings(v: &Vec<String>) -> (r: Vec<String>)
    ensures
        r@.len() == v@.len(),
        forall|i: int| 0 <= i < v@.len() ==> r@[i]@ == v@[i]@,
{
    let n = v.len();
    let mut r: Vec<String> = Vec::new();
    let mut i: usize = 0;
    while i < n
        invariant
            i <= n,
            n == v@.len(),
            r@.len() == i,
            forall|k: int| 0 <= k < i ==> r@[k]@ == v@[k]@,
        decreases n - i,
    {
        let s = &v[i];
        r.push(s.clone());
        i = i + 1;
    }
    r
}

impl ChallengeProjectDescription {
    /// Convert a raw description, validating every field.
    ///
    /// Succeeds exactly when the raw description names a project, a
    /// recognised language, a docker path, sanitizers and harnesses, and
    /// every harness carries both path fields; the error message names the
    /// first check that failed.
    #[verifier::loop_isolation(false)]
    pub fn try_from(raw: ProjectDescriptionRaw) -> (r: Result<
        ChallengeProjectDescription,
        ParsingError,
    >)
        ensures
            match r {
                Result::Ok(c) => {
                    &&& spec_convert_error(raw) is None
                    &&& raw.cp_name matches Option::Some(n) && c.cp_name == n
                    &&& (raw.language == Option::Some(RawLanguage::C) ==> c.language
                        == Language::C)
                    &&& (raw.language == Option::Some(RawLanguage::Java) ==> c.language
                        == Language::Java)
                    &&& (match raw.docker_image {
                        Option::Some(MaybePath::NoPath) => c.docker_image is None,
                        Option::Some(MaybePath::Path(p)) => c.docker_image matches Option::Some(q)
                            && q@ == p@,
                        Option::None => false,
                    })
                    &&& raw.sanitizers matches Option::Some(ss) && c.sanitizers@.len() == ss@.len()
                        && (forall|k: int|
                        0 <= k < ss@.len() ==> spec_sanitizer_matches(c.sanitizers@[k], ss@[k]))
                    &&& raw.harnesses matches Option::Some(hs) && c.harnesses@.len() == hs@.len()
                        && (forall|k: int|
                        0 <= k < hs@.len() ==> spec_harness_matches(c.harnesses@[k], hs@[k]))
                    &&& (match raw.cp_sources {
                        Option::Some(es) => c.cp_sources@.len() == es@.len() && (forall|k: int|
                            0 <= k < es@.len() ==> spec_source_matches(c.cp_sources@[k], es@[k])),
                        Option::None => match raw.cp_source_address {
                            Option::Some(es) => c.cp_sources@.len() == es@.len() && (forall|k: int|
                                0 <= k < es@.len() ==> spec_address_matches(
                                    c.cp_sources@[k],
                                    es@[k],
                                )),
                            Option::None => c.cp_sources@.len() == 0,
                        },
                    })
                },
                Result::Err(e) => e matches ParsingError::ContentError(m)
                    && spec_convert_error(raw) == Option::Some(m@),
            },
    {
        let ProjectDescriptionRaw {
            cp_name: raw_cp_name,
            language: raw_language,
            cp_address: _,
            cp_sources: raw_cp_sources,
            cp_source_address: raw_cp_source_address,
            docker_image: raw_docker_image,
            sanitizers: raw_sanitizers_opt,
            harnesses: raw_harnesses_opt,
        } = raw;
        let cp_name = match raw_cp_name {
            Option::Some(n) => n,
            Option::None => {
                return Result::Err(ParsingError::ContentError("No cp name provided".to_owned()));
            },
        };
        let language = match raw_language {
            Option::Some(RawLanguage::C) => Language::C,
            Option::Some(RawLanguage::Java) => Language::Java,
            Option::Some(RawLanguage::Unknown(unrecognised)) => {
                let mut msg = "Unsupported language: ".to_owned();
                msg.append(unrecognised.as_str());
                return Result::Err(ParsingError::ContentError(msg));
            },
            Option::None => {
                return Result::Err(ParsingError::ContentError("No language provided".to_owned()));
            },
        };
        let docker_image = match raw_docker_image {
            Option::Some(MaybePath::NoPath) => Option::None,
            Option::Some(MaybePath::Path(p)) => Option::Some(p),
            Option::None => {
                return Result::Err(
                    ParsingError::ContentError("No docker path provided".to_owned()),
                );
            },
        };
        let raw_sanitizers = match raw_sanitizers_opt {
            Option::Some(ss) => ss,
            Option::None => {
                return Result::Err(
                    ParsingError::ContentError("No sanitizers provided".to_owned()),
                );
            },
        };
        let raw_harnesses = match raw_harnesses_opt {
            Option::Some(hs) => hs,
            Option::None => {
                return Result::Err(ParsingError::ContentError("No harnesses provided".to_owned()));
            },
        };

        let mut sanitizers: Vec<(SanitizerId, String)> = Vec::new();
        let sn = raw_sanitizers.len();
        let mut i: usize = 0;
        while i < sn
            invariant
                i <= sn,
                sn == raw_sanitizers@.len(),
                sanitizers@.len() == i,
                forall|k: int|
                    0 <= k < i ==> spec_sanitizer_matches(sanitizers@[k], raw_sanitizers@[k]),
            decreases sn - i,
        {
            let pair = &raw_sanitizers[i];
            let id = SanitizerId(pair.0.clone());
            let description = (pair.1).0.clone();
            sanitizers.push((id, description));
            i = i + 1;
        }

        let mut harnesses: Vec<(HarnessId, HarnessEntry)> = Vec::new();
        let hn = raw_harnesses.len();
        let mut i: usize = 0;
        while i < hn
            invariant
                i <= hn,
                hn == raw_harnesses@.len(),
                harnesses@.len() == i,
                spec_first_bad_harness(raw_harnesses@, 0) == spec_first_bad_harness(
                    raw_harnesses@,
                    i as int,
                ),
                forall|k: int|
                    0 <= k < i ==> spec_harness_matches(harnesses@[k], raw_harnesses@[k]),
            decreases hn - i,
        {
            let pair = &raw_harnesses[i];
            let name = match &pair.1.name {
                Option::Some(n) => n.clone(),
                Option::None => pair.0.clone(),
            };
            let source = match &pair.1.source {
                Option::Some(MaybePath::NoPath) => Option::None,
                Option::Some(MaybePath::Path(p)) => Option::Some(p.clone()),
                Option::None => {
                    return Result::Err(ParsingError::ContentError("Source error".to_owned()));
                },
            };
            let binary = match &pair.1.binary {
                Option::Some(MaybePath::NoPath) => Option::None,
                Option::Some(MaybePath::Path(p)) => Option::Some(p.clone()),
                Option::None => {
                    return Result::Err(ParsingError::ContentError("Binary error".to_owned()));
                },
            };
            harnesses.push((HarnessId(pair.0.clone()), HarnessEntry { name, source, binary }));
            i = i + 1;
        }

        let cp_sources: Vec<SourceEntry> = match &raw_cp_sources {
            Option::Some(entries) => {
                let mut out: Vec<SourceEntry> = Vec::new();
                let en = entries.len();
                let mut i: usize = 0;
                while i < en
                    invariant
                        i <= en,
                        en == entries@.len(),
                        out@.len() == i,
                        forall|k: int| 0 <= k < i ==> spec_source_matches(out@[k], entries@[k]),
                    decreases en - i,
                {
                    let pair = &entries[i];
                    let path = match &pair.1.directory {
                        Option::Some(d) => d.clone(),
                        Option::None => pair.0.clone(),
                    };
                    let source_ref = match &pair.1.referenced_commit {
                        Option::Some(c) => Option::Some(c.clone()),
                        Option::None => Option::Some("main".to_owned()),
                    };
                    let artifacts = match &pair.1.artifacts {
                        Option::Some(a) => Option::Some(clone_strings(a)),
                        Option::None => Option::None,
                    };
                    out.push(
                        SourceEntry { address: pair.1.address.clone(), source_ref, path, artifacts },
                    );
                    i = i + 1;
                }
                out
            },
            Option::None => match &raw_cp_source_address {
                Option::Some(entries) => {
                    let mut out: Vec<SourceEntry> = Vec::new();
                    let en = entries.len();
                    let mut i: usize = 0;
                    while i < en
                        invariant
                            i <= en,
                            en == entries@.len(),
                            out@.len() == i,
                            forall|k: int|
                                0 <= k < i ==> spec_address_matches(out@[k], entries@[k]),
                        decreases en - i,
                    {
                        let pair = &entries[i];
                        out.push(
                            SourceEntry {
                                address: pair.1.clone(),
                                source_ref: Option::Some("main".to_owned()),
                                path: pair.0.clone(),
                                artifacts: Option::None,
                            },
                        );
                        i = i + 1;
                    }
                    out
                },
                Option::None => Vec::new(),
            },
        };

        Result::Ok(
            ChallengeProjectDescription {
                cp_name,
                language,
                docker_image,
                cp_sources,
                sanitizers,
                harnesses,
            },
        )
    }
}

} // verus!
