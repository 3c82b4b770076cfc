use lancedb::error::Error;
use lancedb::index::{
    extract_index_params, ConfigValue, DistanceType, FtsParams, HnswPqParams, HnswSqParams, Index,
    IndexConfig, IndexDescriptor, IndexParams, IvfPqParams,
};
use lancedb::table::{parse_write_mode, WriteMode};

fn descriptor(class_name: &str, params: IndexParams) -> Option<IndexDescriptor> {
    Some(IndexDescriptor {
        class_name: class_name.to_string(),
        params,
    })
}

fn fts_params() -> FtsParams {
    FtsParams {
        with_position: true,
        base_tokenizer: "simple".to_string(),
        language: "english".to_string(),
        max_token_length: Some(40),
        lower_case: true,
        stem: false,
        remove_stop_words: false,
        ascii_folding: true,
    }
}

#[test]
fn resolve_absent_descriptor_is_auto() {
    let resolved = extract_index_params(&None).unwrap();
    assert!(matches!(resolved, Index::Auto));
}

#[test]
fn resolve_btree() {
    let resolved = extract_index_params(&descriptor("BTree", IndexParams::Empty)).unwrap();
    assert!(matches!(resolved, Index::BTree));
}

#[test]
fn resolve_bitmap() {
    let resolved = extract_index_params(&descriptor("Bitmap", IndexParams::Empty)).unwrap();
    assert!(matches!(resolved, Index::Bitmap));
}

#[test]
fn resolve_label_list() {
    let resolved = extract_index_params(&descriptor("LabelList", IndexParams::Empty)).unwrap();
    assert!(matches!(resolved, Index::LabelList));
}

#[test]
fn resolve_namespaced_class_name() {
    let resolved =
        extract_index_params(&descriptor("lancedb.index.BTree", IndexParams::Empty)).unwrap();
    assert!(matches!(resolved, Index::BTree));
}

#[test]
fn resolve_fts_preserves_every_field() {
    let resolved =
        extract_index_params(&descriptor("FTS", IndexParams::Fts(fts_params()))).unwrap();
    match resolved {
        Index::Fts(f) => {
            assert!(f.with_position);
            assert_eq!(f.base_tokenizer, "simple");
            assert_eq!(f.language, "english");
            assert_eq!(f.max_token_length, Some(40));
            assert!(f.lower_case);
            assert!(!f.stem);
            assert!(!f.remove_stop_words);
            assert!(f.ascii_folding);
        }
        _ => panic!("expected a full-text index"),
    }
}

#[test]
fn resolve_fts_unsupported_language() {
    let mut params = fts_params();
    params.language = "klingon".to_string();
    let err = extract_index_params(&descriptor("FTS", IndexParams::Fts(params))).unwrap_err();
    match err {
        Error::InvalidInput { message } => {
            assert_eq!(message, "unsupported language: klingon");
        }
        _ => panic!("expected invalid input"),
    }
}

#[test]
fn resolve_fts_supported_language_succeeds() {
    let mut params = fts_params();
    params.language = "german".to_string();
    let resolved =
        extract_index_params(&descriptor("FTS", IndexParams::Fts(params))).unwrap();
    assert!(matches!(resolved, Index::Fts(_)));
}

#[test]
fn resolve_ivf_pq_preserves_every_field() {
    let params = IvfPqParams {
        distance_type: "cosine".to_string(),
        num_partitions: Some(128),
        num_sub_vectors: Some(16),
        num_bits: 8,
        max_iterations: 50,
        sample_rate: 256,
    };
    let resolved =
        extract_index_params(&descriptor("IvfPq", IndexParams::IvfPq(params))).unwrap();
    match resolved {
        Index::IvfPq(x) => {
            assert_eq!(x.distance_type, DistanceType::Cosine);
            assert_eq!(x.num_partitions, Some(128));
            assert_eq!(x.num_sub_vectors, Some(16));
            assert_eq!(x.num_bits, 8);
            assert_eq!(x.max_iterations, 50);
            assert_eq!(x.sample_rate, 256);
        }
        _ => panic!("expected an IVF-PQ index"),
    }
}

#[test]
fn resolve_ivf_pq_omitted_counts_stay_unset() {
    let params = IvfPqParams {
        distance_type: "l2".to_string(),
        num_partitions: None,
        num_sub_vectors: None,
        num_bits: 8,
        max_iterations: 50,
        sample_rate: 256,
    };
    let resolved =
        extract_index_params(&descriptor("IvfPq", IndexParams::IvfPq(params))).unwrap();
    match resolved {
        Index::IvfPq(x) => {
            assert_eq!(x.num_partitions, None);
            assert_eq!(x.num_sub_vectors, None);
        }
        _ => panic!("expected an IVF-PQ index"),
    }
}

#[test]
fn resolve_hnsw_pq_preserves_every_field() {
    let params = HnswPqParams {
        distance_type: "dot".to_string(),
        num_partitions: None,
        num_sub_vectors: None,
        num_bits: 4,
        max_iterations: 10,
        sample_rate: 64,
        m: 20,
        ef_construction: 300,
    };
    let resolved =
        extract_index_params(&descriptor("HnswPq", IndexParams::HnswPq(params))).unwrap();
    match resolved {
        Index::IvfHnswPq(x) => {
            assert_eq!(x.distance_type, DistanceType::Dot);
            assert_eq!(x.num_partitions, None);
            assert_eq!(x.num_sub_vectors, None);
            assert_eq!(x.num_bits, 4);
            assert_eq!(x.max_iterations, 10);
            assert_eq!(x.sample_rate, 64);
            assert_eq!(x.num_edges, 20);
            assert_eq!(x.ef_construction, 300);
        }
        _ => panic!("expected an IVF-HNSW-PQ index"),
    }
}

#[test]
fn resolve_hnsw_sq_preserves_every_field() {
    let params = HnswSqParams {
        distance_type: "euclidean".to_string(),
        num_partitions: Some(4),
        max_iterations: 25,
        sample_rate: 128,
        m: 32,
        ef_construction: 150,
    };
    let resolved =
        extract_index_params(&descriptor("HnswSq", IndexParams::HnswSq(params))).unwrap();
    match resolved {
        Index::IvfHnswSq(x) => {
            assert_eq!(x.distance_type, DistanceType::L2);
            assert_eq!(x.num_partitions, Some(4));
            assert_eq!(x.max_iterations, 25);
            assert_eq!(x.sample_rate, 128);
            assert_eq!(x.num_edges, 32);
            assert_eq!(x.ef_construction, 150);
        }
        _ => panic!("expected an IVF-HNSW-SQ index"),
    }
}

#[test]
fn resolve_unknown_kind_lists_accepted_kinds() {
    let err = extract_index_params(&descriptor("Foo", IndexParams::Empty)).unwrap_err();
    match err {
        Error::InvalidInput { message } => {
            assert_eq!(
                message,
                "Invalid index type 'Foo'. Must be one of BTree, Bitmap, LabelList, FTS, IvfPq, HnswPq, or HnswSq"
            );
        }
        _ => panic!("expected invalid input"),
    }
}

#[test]
fn resolve_bad_distance_type() {
    let params = IvfPqParams {
        distance_type: "manhattan".to_string(),
        num_partitions: None,
        num_sub_vectors: None,
        num_bits: 8,
        max_iterations: 50,
        sample_rate: 256,
    };
    let err = extract_index_params(&descriptor("IvfPq", IndexParams::IvfPq(params))).unwrap_err();
    match err {
        Error::InvalidInput { message } => {
            assert_eq!(
                message,
                "Invalid distance type 'manhattan'. Must be one of l2, euclidean, cosine, dot, or hamming"
            );
        }
        _ => panic!("expected invalid input"),
    }
}

#[test]
fn resolve_kind_with_missing_params() {
    let err = extract_index_params(&descriptor("FTS", IndexParams::Empty)).unwrap_err();
    match err {
        Error::InvalidInput { message } => {
            assert_eq!(message, "missing parameters for index type 'FTS'");
        }
        _ => panic!("expected invalid input"),
    }
}

#[test]
fn parse_write_modes() {
    assert!(matches!(parse_write_mode("create"), Ok(WriteMode::Create)));
    assert!(matches!(parse_write_mode("append"), Ok(WriteMode::Append)));
    assert!(matches!(
        parse_write_mode("overwrite"),
        Ok(WriteMode::Overwrite)
    ));
    match parse_write_mode("merge").unwrap_err() {
        Error::InvalidInput { message } => assert_eq!(message, "invalid write mode merge"),
        _ => panic!("expected invalid input"),
    }
}

fn sample_config() -> IndexConfig {
    IndexConfig {
        index_type: "IVF_PQ".to_string(),
        columns: vec!["vector".to_string()],
        name: "my_idx".to_string(),
    }
}

#[test]
fn config_repr_matches_display_form() {
    let config = sample_config();
    assert_eq!(
        config.__repr__(),
        "Index(IVF_PQ, columns=[\"vector\"], name=\"my_idx\")"
    );
}

#[test]
fn config_repr_with_two_columns() {
    let mut config = sample_config();
    config.columns = vec!["a".to_string(), "b".to_string()];
    assert_eq!(
        config.__repr__(),
        "Index(IVF_PQ, columns=[\"a\", \"b\"], name=\"my_idx\")"
    );
}

#[test]
fn config_repr_escapes_like_debug_formatting() {
    let mut config = sample_config();
    config.columns = vec!["a\"b\\c".to_string()];
    assert_eq!(
        config.__repr__(),
        format!(
            "Index({}, columns={:?}, name=\"{}\")",
            config.index_type, config.columns, config.name
        )
    );
    assert_eq!(
        config.__repr__(),
        "Index(IVF_PQ, columns=[\"a\\\"b\\\\c\"], name=\"my_idx\")"
    );
}

#[test]
fn config_getitem_reads_every_key() {
    let config = sample_config();
    match config.__getitem__("index_type").unwrap() {
        ConfigValue::Text(t) => assert_eq!(t, "IVF_PQ"),
        _ => panic!("expected text"),
    }
    match config.__getitem__("columns").unwrap() {
        ConfigValue::TextList(l) => assert_eq!(l, vec!["vector".to_string()]),
        _ => panic!("expected a column list"),
    }
    match config.__getitem__("name").unwrap() {
        ConfigValue::Text(t) => assert_eq!(t, "my_idx"),
        _ => panic!("expected text"),
    }
    match config.__getitem__("index_name").unwrap() {
        ConfigValue::Text(t) => assert_eq!(t, "my_idx"),
        _ => panic!("expected text"),
    }
    match config.__getitem__("owner").unwrap_err() {
        Error::InvalidInput { message } => assert_eq!(message, "Invalid key: owner"),
        _ => panic!("expected invalid input"),
    }
}
