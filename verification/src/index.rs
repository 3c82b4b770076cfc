//! Validation and normalization of index descriptors.
//!
//! A user-supplied descriptor names an index kind (possibly qualified by a
//! namespace, as in `module.BTree`) and carries the parameters of that kind.
//! [`extract_index_params`] resolves such a descriptor into one of a closed
//! set of index variants with fully resolved parameters, or reports exactly
//! why the descriptor is unacceptable. Resolution is a pure transformation:
//! distance-type strings and tokenizer-language strings are validated
//! eagerly, so configuration errors surface before any index build starts.

use vstd::prelude::*;

use crate::error::Error;
use crate::strings::str_eq;

verus! {

/// The distance metric used for vector comparison within an index.
#[derive(Debug, Clone, Copy, PartialEq, Eq, Structural)]
pub enum DistanceType {
    /// Euclidean (L2) distance.
    L2,
    /// Cosine distance.
    Cosine,
    /// Dot-product distance.
    Dot,
    /// Hamming distance.
    Hamming,
}

/// Parameters of a full-text-search index descriptor.
#[derive(Debug, Clone)]
pub struct FtsParams {
    pub with_position: bool,
    pub base_tokenizer: String,
    pub language: String,
    pub max_token_length: Option<usize>,
    pub lower_case: bool,
    pub stem: bool,
    pub remove_stop_words: bool,
    pub ascii_folding: bool,
}

/// Parameters of an IVF-PQ index descriptor.
#[derive(Debug, Clone)]
pub struct IvfPqParams {
    pub distance_type: String,
    pub num_partitions: Option<u32>,
    pub num_sub_vectors: Option<u32>,
    pub num_bits: u32,
    pub max_iterations: u32,
    pub sample_rate: u32,
}

/// Parameters of an IVF-HNSW-PQ index descriptor. `m` is the graph degree.
#[derive(Debug, Clone)]
pub struct HnswPqParams {
    pub distance_type: String,
    pub num_partitions: Option<u32>,
    pub num_sub_vectors: Option<u32>,
    pub num_bits: u32,
    pub max_iterations: u32,
    pub sample_rate: u32,
    pub m: u32,
    pub ef_construction: u32,
}

/// Parameters of an IVF-HNSW-SQ index descriptor. Scalar quantization uses a
/// fixed per-dimension encoding, so there is no sub-vector count or bit
/// width.
#[derive(Debug, Clone)]
pub struct HnswSqParams {
    pub distance_type: String,
    pub num_partitions: Option<u32>,
    pub max_iterations: u32,
    pub sample_rate: u32,
    pub m: u32,
    pub ef_construction: u32,
}

/// The parameter payload of a descriptor. Parameterless kinds carry `Empty`.
#[derive(Debug, Clone)]
pub enum IndexParams {
    Empty,
    Fts(FtsParams),
    IvfPq(IvfPqParams),
    HnswPq(HnswPqParams),
    HnswSq(HnswSqParams),
}

/// A user-supplied index descriptor: a kind name, possibly qualified as
/// `namespace.Kind`, and the parameters of that kind.
#[derive(Debug, Clone)]
pub struct IndexDescriptor {
    pub class_name: String,
    pub params: IndexParams,
}

/// A resolved full-text-search index.
#[derive(Debug, Clone)]
pub struct FtsIndex {
    pub with_position: bool,
    pub base_tokenizer: String,
    pub language: String,
    pub max_token_length: Option<usize>,
    pub lower_case: bool,
    pub stem: bool,
    pub remove_stop_words: bool,
    pub ascii_folding: bool,
}

/// A resolved IVF-PQ index. When `num_partitions` or `num_sub_vectors` is
/// `None` the storage engine auto-selects the count from row count and
/// dimensionality; resolution never substitutes a local default.
#[derive(Debug, Clone)]
pub struct IvfPqIndex {
    pub distance_type: DistanceType,
    pub num_partitions: Option<u32>,
    pub num_sub_vectors: Option<u32>,
    pub num_bits: u32,
    pub max_iterations: u32,
    pub sample_rate: u32,
}

/// A resolved IVF-HNSW-PQ index.
#[derive(Debug, Clone)]
pub struct IvfHnswPqIndex {
    pub distance_type: DistanceType,
    pub num_partitions: Option<u32>,
    pub num_sub_vectors: Option<u32>,
    pub num_bits: u32,
    pub max_iterations: u32,
    pub sample_rate: u32,
    pub num_edges: u32,
    pub ef_construction: u32,
}

/// A resolved IVF-HNSW-SQ index.
#[derive(Debug, Clone)]
pub struct IvfHnswSqIndex {
    pub distance_type: DistanceType,
    pub num_partitions: Option<u32>,
    pub max_iterations: u32,
    pub sample_rate: u32,
    pub num_edges: u32,
    pub ef_construction: u32,
}

/// A fully resolved index variant. Exactly one variant is active; an
/// unrecognized descriptor is a hard validation error, never a silent
/// fallback.
#[derive(Debug, Clone)]
pub enum Index {
    BTree,
    Bitmap,
    LabelList,
    Fts(FtsIndex),
    IvfPq(IvfPqIndex),
    IvfHnswPq(IvfHnswPqIndex),
    IvfHnswSq(IvfHnswSqIndex),
    /// Let the storage engine choose based on the column type; selected when
    /// no descriptor is supplied.
    Auto,
}

/// The kind tag of a class name: the segment after the last `.`, or the
/// whole name when it has no `.`.
pub open spec fn tag_of(s: Seq<char>) -> Seq<char>
    decreases s.len(),
{
    if s.len() == 0 {
        Seq::empty()
    } else if s.last() == '.' {
        Seq::empty()
    } else {
        tag_of(s.drop_last()).push(s.last())
    }
}

/// The tokenizer languages a full-text index supports.
pub open spec fn supported_language(l: Seq<char>) -> bool {
    ||| l == "arabic"@
    ||| l == "danish"@
    ||| l == "dutch"@
    ||| l == "english"@
    ||| l == "finnish"@
    ||| l == "french"@
    ||| l == "german"@
    ||| l == "greek"@
    ||| l == "hungarian"@
    ||| l == "italian"@
    ||| l == "norwegian"@
    ||| l == "portuguese"@
    ||| l == "romanian"@
    ||| l == "russian"@
    ||| l == "spanish"@
    ||| l == "swedish"@
    ||| l == "tamil"@
    ||| l == "turkish"@
}

/// The distance metric a distance-type string resolves to, if any.
pub open spec fn distance_type_of(s: Seq<char>) -> Option<DistanceType> {
    if s == "l2"@ || s == "euclidean"@ {
        Some(DistanceType::L2)
    } else if s == "cosine"@ {
        Some(DistanceType::Cosine)
    } else if s == "dot"@ {
        Some(DistanceType::Dot)
    } else if s == "hamming"@ {
        Some(DistanceType::Hamming)
    } else {
        None
    }
}

/// The message reported for a descriptor whose kind is not recognized.
pub open spec fn unknown_kind_message(class_name: Seq<char>) -> Seq<char> {
    "Invalid index type '"@ + class_name
        + "'. Must be one of BTree, Bitmap, LabelList, FTS, IvfPq, HnswPq, or HnswSq"@
}

/// The message reported for a full-text descriptor whose language is not
/// supported.
pub open spec fn unsupported_language_message(language: Seq<char>) -> Seq<char> {
    "unsupported language: "@ + language
}

/// The message reported for a descriptor whose kind is recognized but whose
/// parameter payload does not have the shape that kind requires.
pub open spec fn missing_params_message(class_name: Seq<char>) -> Seq<char> {
    "missing parameters for index type '"@ + class_name + "'"@
}

/// The message reported for a distance-type string that resolves to no
/// supported metric.
pub open spec fn invalid_distance_message(s: Seq<char>) -> Seq<char> {
    "Invalid distance type '"@ + s + "'. Must be one of l2, euclidean, cosine, dot, or hamming"@
}

/// The kind tag of a class name: the segment after the last `.`, or the
/// whole name when it has no `.`.
pub fn class_name_tag(s: &str) -> (r: String)
    ensures
        r@ == tag_of(s@),
{
    let n: usize = s.unicode_len();
    let mut acc: String = String::new();
    let mut i: usize = 0;
    while i < n
        invariant
            i <= n,
            n == s@.len(),
            acc@ == tag_of(s@.subrange(0, i as int)),
        decreases n - i,
    {
        proof {
            assert(s@.subrange(0, (i + 1) as int).drop_last() =~= s@.subrange(0, i as int));
            assert(s@.subrange(0, (i + 1) as int).last() == s@[i as int]);
        }
        let c = s.get_char(i);
        if c == '.' {
            acc = String::new();
        } else {
            let piece = s.substring_char(i, i + 1);
            proof {
                assert(tag_of(s@.subrange(0, i as int)).push(s@[i as int]) =~= tag_of(
                    s@.subrange(0, i as int),
                ) + piece@);
            }
            acc.append(piece);
        }
        i = i + 1;
    }
    proof {
        assert(s@.subrange(0, n as int) =~= s@);
    }
    acc
}

/// Whether a full-text index supports this tokenizer language.
pub fn language_is_supported(l: &str) -> (r: bool)
    ensures
        r == supported_language(l@),
{
    str_eq(l, "arabic") || str_eq(l, "danish") || str_eq(l, "dutch") || str_eq(l, "english")
        || str_eq(l, "finnish") || str_eq(l, "french") || str_eq(l, "german") || str_eq(l, "greek")
        || str_eq(l, "hungarian") || str_eq(l, "italian") || str_eq(l, "norwegian") || str_eq(
        l,
        "portuguese",
    ) || str_eq(l, "romanian") || str_eq(l, "russian") || str_eq(l, "spanish") || str_eq(
        l,
        "swedish",
    ) || str_eq(l, "tamil") || str_eq(l, "turkish")
}

/// Resolves a distance-type string to a supported metric, or reports it as
/// invalid input naming the offending string.
pub fn parse_distance_type(s: &str) -> (r: Result<DistanceType, Error>)
    ensures
        match distance_type_of(s@) {
            Some(d) => r == Ok::<DistanceType, Error>(d),
            None => (r matches Err(e) && e matches Error::InvalidInput { message } && message@
                == invalid_distance_message(s@)),
        },
{
    if str_eq(s, "l2") || str_eq(s, "euclidean") {
        Ok(DistanceType::L2)
    } else if str_eq(s, "cosine") {
        Ok(DistanceType::Cosine)
    } else if str_eq(s, "dot") {
        Ok(DistanceType::Dot)
    } else if str_eq(s, "hamming") {
        Ok(DistanceType::Hamming)
    } else {
        let mut message = String::new();
        message.append("Invalid distance type '");
        message.append(s);
        message.append("'. Must be one of l2, euclidean, cosine, dot, or hamming");
        proof {
            assert(message@ =~= invalid_distance_message(s@));
        }
        Err(Error::InvalidInput { message })
    }
}

/// Builds the error for an unrecognized kind name.
fn unknown_kind_error(class_name: &str) -> (r: Error)
    ensures
        r matches Error::InvalidInput { message } && message@ == unknown_kind_message(class_name@),
{
    let mut message = String::new();
    message.append("Invalid index type '");
    message.append(class_name);
    message.append("'. Must be one of BTree, Bitmap, LabelList, FTS, IvfPq, HnswPq, or HnswSq");
    proof {
        assert(message@ =~= unknown_kind_message(class_name@));
    }
    Error::InvalidInput { message }
}

/// Builds the error for a recognized kind whose parameters are missing.
fn missing_params_error(class_name: &str) -> (r: Error)
    ensures
        r matches Error::InvalidInput { message } && message@ == missing_params_message(
            class_name@,
        ),
{
    let mut message = String::new();
    message.append("missing parameters for index type '");
    message.append(class_name);
    message.append("'");
    proof {
        assert(message@ =~= missing_params_message(class_name@));
    }
    Error::InvalidInput { message }
}

/// What resolving a descriptor must produce, stated over the descriptor's
/// fields. The result preserves every parameter losslessly; in particular an
/// omitted `num_partitions` or `num_sub_vectors` stays unset.
pub open spec fn resolution_ok(source: Option<&IndexDescriptor>, r: Result<Index, Error>) -> bool {
    match source {
        None => r == Ok::<Index, Error>(Index::Auto),
        Some(d) => {
            let tag = tag_of(d.class_name@);
            if tag == "BTree"@ {
                r == Ok::<Index, Error>(Index::BTree)
            } else if tag == "Bitmap"@ {
                r == Ok::<Index, Error>(Index::Bitmap)
            } else if tag == "LabelList"@ {
                r == Ok::<Index, Error>(Index::LabelList)
            } else if tag == "FTS"@ {
                match d.params {
                    IndexParams::Fts(p) => if supported_language(p.language@) {
                        r matches Ok(Index::Fts(f)) && f.with_position == p.with_position
                            && f.base_tokenizer@ == p.base_tokenizer@ && f.language@ == p.language@
                            && f.max_token_length == p.max_token_length && f.lower_case
                            == p.lower_case && f.stem == p.stem && f.remove_stop_words
                            == p.remove_stop_words && f.ascii_folding == p.ascii_folding
                    } else {
                        r matches Err(Error::InvalidInput { message }) && message@
                            == unsupported_language_message(p.language@)
                    },
                    _ => r matches Err(Error::InvalidInput { message }) && message@
                        == missing_params_message(d.class_name@),
                }
            } else if tag == "IvfPq"@ {
                match d.params {
                    IndexParams::IvfPq(p) => match distance_type_of(p.distance_type@) {
                        Some(dt) => r matches Ok(Index::IvfPq(x)) && x.distance_type == dt
                            && x.num_partitions == p.num_partitions && x.num_sub_vectors
                            == p.num_sub_vectors && x.num_bits == p.num_bits && x.max_iterations
                            == p.max_iterations && x.sample_rate == p.sample_rate,
                        None => r matches Err(Error::InvalidInput { message }) && message@
                            == invalid_distance_message(p.distance_type@),
                    },
                    _ => r matches Err(Error::InvalidInput { message }) && message@
                        == missing_params_message(d.class_name@),
                }
            } else if tag == "HnswPq"@ {
                match d.params {
                    IndexParams::HnswPq(p) => match distance_type_of(p.distance_type@) {
                        Some(dt) => r matches Ok(Index::IvfHnswPq(x)) && x.distance_type == dt
                            && x.num_partitions == p.num_partitions && x.num_sub_vectors
                            == p.num_sub_vectors && x.num_bits == p.num_bits && x.max_iterations
                            == p.max_iterations && x.sample_rate == p.sample_rate && x.num_edges
                            == p.m && x.ef_construction == p.ef_construction,
                        None => r matches Err(Error::InvalidInput { message }) && message@
                            == invalid_distance_message(p.distance_type@),
                    },
                    _ => r matches Err(Error::InvalidInput { message }) && message@
                        == missing_params_message(d.class_name@),
                }
            } else if tag == "HnswSq"@ {
                match d.params {
                    IndexParams::HnswSq(p) => match distance_type_of(p.distance_type@) {
                        Some(dt) => r matches Ok(Index::IvfHnswSq(x)) && x.distance_type == dt
                            && x.num_partitions == p.num_partitions && x.max_iterations
                            == p.max_iterations && x.sample_rate == p.sample_rate && x.num_edges
                            == p.m && x.ef_construction == p.ef_construction,
                        None => r matches Err(Error::InvalidInput { message }) && message@
                            == invalid_distance_message(p.distance_type@),
                    },
                    _ => r matches Err(Error::InvalidInput { message }) && message@
                        == missing_params_message(d.class_name@),
                }
            } else {
                r matches Err(Error::InvalidInput { message }) && message@ == unknown_kind_message(
                    d.class_name@,
                )
            }
        },
    }
}

/// Resolves a user-supplied index descriptor into a fully resolved index
/// variant. An absent descriptor resolves to [`Index::Auto`]. Dispatch is on
/// the kind tag (the last segment of the class name after any namespace
/// qualifier); an unrecognized tag, an unsupported tokenizer language and an
/// unsupported distance metric are each rejected with [`Error::InvalidInput`]
/// naming the offender. Every parameter of a well-formed descriptor is
/// preserved losslessly in the resolved variant.
pub fn extract_index_params(source: &Option<IndexDescriptor>) -> (r: Result<Index, Error>)
    ensures
        resolution_ok(
            match source {
                Some(d) => Some(d),
                None => None,
            },
            r,
        ),
{
    let d = match source {
        Some(d) => d,
        None => {
            return Ok(Index::Auto);
        },
    };
    let tag = class_name_tag(d.class_name.as_str());
    let tag = tag.as_str();
    if str_eq(tag, "BTree") {
        Ok(Index::BTree)
    } else if str_eq(tag, "Bitmap") {
        Ok(Index::Bitmap)
    } else if str_eq(tag, "LabelList") {
        Ok(Index::LabelList)
    } else if str_eq(tag, "FTS") {
        match &d.params {
            IndexParams::Fts(p) => {
                if language_is_supported(p.language.as_str()) {
                    Ok(
                        Index::Fts(
                            FtsIndex {
                                with_position: p.with_position,
                                base_tokenizer: p.base_tokenizer.clone(),
                                language: p.language.clone(),
                                max_token_length: p.max_token_length,
                                lower_case: p.lower_case,
                                stem: p.stem,
                                remove_stop_words: p.remove_stop_words,
                                ascii_folding: p.ascii_folding,
                            },
                        ),
                    )
                } else {
                    let mut message = String::new();
                    message.append("unsupported language: ");
                    message.append(p.language.as_str());
                    proof {
                        assert(message@ =~= unsupported_language_message(p.language@));
                    }
                    Err(Error::InvalidInput { message })
                }
            },
            _ => Err(missing_params_error(d.class_name.as_str())),
        }
    } else if str_eq(tag, "IvfPq") {
        match &d.params {
            IndexParams::IvfPq(p) => {
                let distance_type = match parse_distance_type(p.distance_type.as_str()) {
                    Ok(dt) => dt,
                    Err(e) => {
                        return Err(e);
                    },
                };
                Ok(
                    Index::IvfPq(
                        IvfPqIndex {
                            distance_type,
                            num_partitions: p.num_partitions,
                            num_sub_vectors: p.num_sub_vectors,
                            num_bits: p.num_bits,
                            max_iterations: p.max_iterations,
                            sample_rate: p.sample_rate,
                        },
                    ),
                )
            },
            _ => Err(missing_params_error(d.class_name.as_str())),
        }
    } else if str_eq(tag, "HnswPq") {
        match &d.params {
            IndexParams::HnswPq(p) => {
                let distance_type = match parse_distance_type(p.distance_type.as_str()) {
                    Ok(dt) => dt,
                    Err(e) => {
                        return Err(e);
                    },
                };
                Ok(
                    Index::IvfHnswPq(
                        IvfHnswPqIndex {
                            distance_type,
                            num_partitions: p.num_partitions,
                            num_sub_vectors: p.num_sub_vectors,
                            num_bits: p.num_bits,
                            max_iterations: p.max_iterations,
                            sample_rate: p.sample_rate,
                            num_edges: p.m,
                            ef_construction: p.ef_construction,
                        },
                    ),
                )
            },
            _ => Err(missing_params_error(d.class_name.as_str())),
        }
    } else if str_eq(tag, "HnswSq") {
        match &d.params {
            IndexParams::HnswSq(p) => {
                let distance_type = match parse_distance_type(p.distance_type.as_str()) {
                    Ok(dt) => dt,
                    Err(e) => {
                        return Err(e);
                    },
                };
                Ok(
                    Index::IvfHnswSq(
                        IvfHnswSqIndex {
                            distance_type,
                            num_partitions: p.num_partitions,
                            max_iterations: p.max_iterations,
                            sample_rate: p.sample_rate,
                            num_edges: p.m,
                            ef_construction: p.ef_construction,
                        },
                    ),
                )
            },
            _ => Err(missing_params_error(d.class_name.as_str())),
        }
    } else {
        Err(unknown_kind_error(d.class_name.as_str()))
    }
}

/// What the standard debug formatting of a list of strings prints for given
/// contents: the names between brackets, each between double quotes, comma
/// separated, with quotes, backslashes and control characters escaped. The
/// escaping rules take pages to state, so the result is only named here; it
/// is a function of the contents alone.
pub uninterp spec fn debug_list_of(cols: Seq<Seq<char>>) -> Seq<char>;

/// Relies on the standard library's `Debug` formatting of `Vec<String>`:
/// the printed list depends on the vector's contents alone.
#[verifier::external_body]
fn format_columns(cols: &Vec<String>) -> (r: String)
    ensures
        r@ == debug_list_of(cols.deep_view()),
{
    format!("{:?}", cols)
}

/// The display form of an index description:
/// `Index(<type>, columns=<debug-formatted columns>, name="<name>")`.
pub open spec fn repr_of(index_type: Seq<char>, cols: Seq<Seq<char>>, name: Seq<char>) -> Seq<char> {
    "Index("@ + index_type + ", columns="@ + debug_list_of(cols) + ", name=\""@ + name + "\")"@
}

/// The message reported for a key an index description does not carry.
pub open spec fn invalid_key_message(key: Seq<char>) -> Seq<char> {
    "Invalid key: "@ + key
}

/// A value read out of an index description by key.
#[derive(Debug, Clone)]
pub enum ConfigValue {
    /// A single text field.
    Text(String),
    /// The column list.
    TextList(Vec<String>),
}

/// A description of an index currently configured on a column. Created by
/// the storage engine when listing existing indexes; immutable.
#[derive(Debug, Clone)]
pub struct IndexConfig {
    /// The type of the index.
    pub index_type: String,
    /// The columns in the index.
    ///
    /// Currently this is always a list of size 1. In the future there may
    /// be more columns to represent composite indices.
    pub columns: Vec<String>,
    /// Name of the index.
    pub name: String,
}

impl IndexConfig {
    /// The display form of this description:
    /// `Index(<type>, columns=[...], name="<name>")`.
    pub fn __repr__(&self) -> (r: String)
        ensures
            r@ == repr_of(self.index_type@, self.columns.deep_view(), self.name@),
    {
        let mut out = String::new();
        out.append("Index(");
        out.append(self.index_type.as_str());
        out.append(", columns=");
        let columns = format_columns(&self.columns);
        out.append(columns.as_str());
        out.append(", name=\"");
        out.append(self.name.as_str());
        out.append("\")");
        proof {
            assert(out@ =~= repr_of(self.index_type@, self.columns.deep_view(), self.name@));
        }
        out
    }

    /// Reads a field of this description by key, supporting the legacy keys
    /// of an older synchronous access pattern: `name` and `index_name` both
    /// read the index name. An unrecognized key is rejected naming it.
    pub fn __getitem__(&self, key: &str) -> (r: Result<ConfigValue, Error>)
        ensures
            ({
                if key@ == "index_type"@ {
                    r matches Ok(ConfigValue::Text(t)) && t@ == self.index_type@
                } else if key@ == "columns"@ {
                    r matches Ok(ConfigValue::TextList(l)) && l@ == self.columns@
                } else if key@ == "name"@ || key@ == "index_name"@ {
                    r matches Ok(ConfigValue::Text(t)) && t@ == self.name@
                } else {
                    r matches Err(Error::InvalidInput { message }) && message@
                        == invalid_key_message(key@)
                }
            }),
    {
        if str_eq(key, "index_type") {
            Ok(ConfigValue::Text(self.index_type.clone()))
        } else if str_eq(key, "columns") {
            Ok(ConfigValue::TextList(crate::strings::clone_string_vec(&self.columns)))
        } else if str_eq(key, "name") || str_eq(key, "index_name") {
            Ok(ConfigValue::Text(self.name.clone()))
        } else {
            let mut message = String::new();
            message.append("Invalid key: ");
            message.append(key);
            proof {
                assert(message@ =~= invalid_key_message(key@));
            }
            Err(Error::InvalidInput { message })
        }
    }
}

} // verus!
