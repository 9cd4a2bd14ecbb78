use api_gateway::accept::accept_candidates;
use api_gateway::accept::negotiate;
use api_gateway::accept::select_preferred;
use api_gateway::accept::weigh;
use api_gateway::accept::AcceptCandidate;
use api_gateway::accept::Negotiation;
use api_gateway::accept::RankedCandidate;
use api_gateway::accept::DEFAULT_QUALITY_BITS;
use api_gateway::accept::UNPARSED_QUALITY_BITS;
use api_gateway::content_type::bytes_equal;
use api_gateway::content_type::header_value_from_content_type;
use api_gateway::content_type::supported_encoding;
use api_gateway::content_type::ApiContentType;

fn parse(candidate: &AcceptCandidate) -> Option<u32> {
    candidate
        .quality
        .as_ref()
        .and_then(|q| std::str::from_utf8(q).ok())
        .and_then(|text| text.parse::<f32>().ok())
        .map(f32::to_bits)
}

fn pick(accept: Option<&[u8]>) -> Option<ApiContentType> {
    match negotiate(accept) {
        Negotiation::Chosen(content_type) => Some(content_type),
        Negotiation::Weigh(candidates) => {
            let parsed: Vec<Option<u32>> = candidates.iter().map(parse).collect();
            let selected = weigh(&candidates, &parsed);
            let ranked: Vec<RankedCandidate> = candidates
                .iter()
                .zip(parsed.iter())
                .map(|(c, p)| RankedCandidate::new(c, *p))
                .collect();
            assert_eq!(selected, select_preferred(&ranked));
            selected
        }
    }
}

fn ranked(content_type: ApiContentType, quality: f32) -> RankedCandidate {
    RankedCandidate {
        content_type,
        quality_bits: quality.to_bits(),
    }
}

#[test]
fn absent_header_selects_structured() {
    assert_eq!(pick(None), Some(ApiContentType::Json));
}

#[test]
fn single_supported_types_select_themselves() {
    assert_eq!(pick(Some(b"application/json")), Some(ApiContentType::Json));
    assert_eq!(
        pick(Some(b"application/protobuf")),
        Some(ApiContentType::Proto)
    );
    assert_eq!(pick(Some(b"*/*")), Some(ApiContentType::Json));
}

#[test]
fn exact_match_is_settled_at_first_sight() {
    assert!(matches!(
        negotiate(Some(b"application/protobuf")),
        Negotiation::Chosen(ApiContentType::Proto)
    ));
    assert!(matches!(
        negotiate(None),
        Negotiation::Chosen(ApiContentType::Json)
    ));
    assert!(matches!(
        negotiate(Some(b"application/protobuf;q=1")),
        Negotiation::Weigh(_)
    ));
}

#[test]
fn single_unsupported_type_fails() {
    assert_eq!(pick(Some(b"text/html")), None);
    assert_eq!(pick(Some(b"")), None);
    assert_eq!(pick(Some(b"application/xml;q=0.9")), None);
}

#[test]
fn highest_quality_wins_in_any_order() {
    assert_eq!(
        pick(Some(b"application/json;q=0.5, application/protobuf;q=0.9")),
        Some(ApiContentType::Proto)
    );
    assert_eq!(
        pick(Some(b"application/protobuf;q=0.9, application/json;q=0.5")),
        Some(ApiContentType::Proto)
    );
    assert_eq!(
        pick(Some(b"application/json;q=0.9, application/protobuf;q=0.5")),
        Some(ApiContentType::Json)
    );
}

#[test]
fn equal_quality_first_listed_wins() {
    assert_eq!(
        pick(Some(b"application/protobuf, application/json")),
        Some(ApiContentType::Proto)
    );
    assert_eq!(
        pick(Some(b"application/json, application/protobuf")),
        Some(ApiContentType::Json)
    );
    assert_eq!(
        pick(Some(b"application/protobuf;q=0.3,application/json;q=0.3")),
        Some(ApiContentType::Proto)
    );
}

#[test]
fn unsupported_ranges_are_passed_over() {
    assert_eq!(
        pick(Some(b"text/html, application/protobuf;q=0.1")),
        Some(ApiContentType::Proto)
    );
    assert_eq!(
        pick(Some(b"text/html, */*;q=0.1")),
        Some(ApiContentType::Json)
    );
}

#[test]
fn missing_quality_counts_as_one() {
    assert_eq!(
        pick(Some(b"application/json;q=0.9, application/protobuf")),
        Some(ApiContentType::Proto)
    );
    assert_eq!(DEFAULT_QUALITY_BITS, 1.0f32.to_bits());
}

#[test]
fn unparsable_quality_counts_as_zero() {
    assert_eq!(
        pick(Some(b"application/json;q=abc, application/protobuf;q=0.1")),
        Some(ApiContentType::Proto)
    );
    assert_eq!(
        pick(Some(b"application/json;q= 0.9, application/protobuf;q=0.1")),
        Some(ApiContentType::Proto)
    );
    assert_eq!(UNPARSED_QUALITY_BITS, 0.0f32.to_bits());
}

#[test]
fn first_quality_parameter_counts() {
    assert_eq!(
        pick(Some(b"application/json;q=0.1;q=0.9, application/protobuf;q=0.5")),
        Some(ApiContentType::Proto)
    );
    assert_eq!(
        pick(Some(b"application/json;charset=utf-8;q=0.7, application/protobuf;q=0.5")),
        Some(ApiContentType::Json)
    );
}

#[test]
fn white_space_around_fields_is_ignored() {
    assert_eq!(
        pick(Some(b" application/protobuf ; q=0.8 ,\tapplication/json ; q=0.2 ")),
        Some(ApiContentType::Proto)
    );
}

#[test]
fn header_that_is_no_text_fails() {
    assert_eq!(pick(Some(b"application/json\x01, application/protobuf")), None);
    assert_eq!(pick(Some(b"application/json, \xff")), None);
    assert!(accept_candidates(b"application/json,\x7f").is_empty());
}

#[test]
fn candidates_are_listed_in_header_order() {
    let found = accept_candidates(b"application/json;q=0.5, text/html, */*;level=1;q=0.1,application/protobuf");
    assert_eq!(found.len(), 3);
    assert_eq!(found[0].content_type, ApiContentType::Json);
    assert_eq!(found[0].quality, Some(b"0.5".to_vec()));
    assert_eq!(found[1].content_type, ApiContentType::Json);
    assert_eq!(found[1].quality, Some(b"0.1".to_vec()));
    assert_eq!(found[2].content_type, ApiContentType::Proto);
    assert_eq!(found[2].quality, None);
}

#[test]
fn quality_text_is_what_follows_the_prefix() {
    let found = accept_candidates(b"application/json; q=; x=1");
    assert_eq!(found.len(), 1);
    assert_eq!(found[0].quality, Some(Vec::new()));
    let found = accept_candidates(b"application/json;Q=0.5;q");
    assert_eq!(found.len(), 1);
    assert_eq!(found[0].quality, None);
}

#[test]
fn ranking_keeps_format_and_fills_quality() {
    let plain = AcceptCandidate {
        content_type: ApiContentType::Proto,
        quality: None,
    };
    let stated = AcceptCandidate {
        content_type: ApiContentType::Json,
        quality: Some(b"0.25".to_vec()),
    };
    assert_eq!(
        RankedCandidate::new(&plain, Some(7)),
        RankedCandidate {
            content_type: ApiContentType::Proto,
            quality_bits: 0x3F80_0000
        }
    );
    assert_eq!(
        RankedCandidate::new(&stated, Some(0.25f32.to_bits())),
        RankedCandidate {
            content_type: ApiContentType::Json,
            quality_bits: 0x3E80_0000
        }
    );
    assert_eq!(RankedCandidate::new(&stated, None).quality_bits, 0);
}

#[test]
fn selection_of_no_candidate_is_none() {
    assert_eq!(select_preferred(&Vec::new()), None);
}

#[test]
fn selection_follows_the_total_order() {
    let json = ApiContentType::Json;
    let proto = ApiContentType::Proto;
    assert_eq!(
        select_preferred(&vec![ranked(json, -0.0), ranked(proto, 0.0)]),
        Some(proto)
    );
    assert_eq!(
        select_preferred(&vec![ranked(proto, 0.0), ranked(json, -0.0)]),
        Some(proto)
    );
    assert_eq!(
        select_preferred(&vec![ranked(json, -2.0), ranked(proto, -1.0)]),
        Some(proto)
    );
    assert_eq!(
        select_preferred(&vec![ranked(json, 1.0), ranked(proto, f32::NAN)]),
        Some(proto)
    );
    assert_eq!(
        select_preferred(&vec![ranked(json, f32::INFINITY), ranked(proto, 1.0e30)]),
        Some(json)
    );
    assert_eq!(
        select_preferred(&vec![ranked(json, 0.5), ranked(proto, 0.5), ranked(proto, 0.4)]),
        Some(json)
    );
}

#[test]
fn negative_quality_loses_to_unparsable() {
    assert_eq!(
        pick(Some(b"application/json;q=-1, application/protobuf;q=oops")),
        Some(ApiContentType::Proto)
    );
}

#[test]
fn media_types_of_the_formats() {
    assert_eq!(
        header_value_from_content_type(ApiContentType::Json),
        "application/json"
    );
    assert_eq!(
        header_value_from_content_type(ApiContentType::Proto),
        "application/protobuf"
    );
}

#[test]
fn supported_encoding_is_exact() {
    assert_eq!(supported_encoding(b"application/json"), Some(ApiContentType::Json));
    assert_eq!(supported_encoding(b"application/protobuf"), Some(ApiContentType::Proto));
    assert_eq!(supported_encoding(b"*/*"), Some(ApiContentType::Json));
    assert_eq!(supported_encoding(b"application/json "), None);
    assert_eq!(supported_encoding(b"Application/json"), None);
    assert_eq!(supported_encoding(b"application/*"), None);
    assert_eq!(supported_encoding(b""), None);
}

#[test]
fn bytes_equal_compares_contents() {
    assert!(bytes_equal(b"abc", b"abc"));
    assert!(bytes_equal(b"", b""));
    assert!(!bytes_equal(b"abc", b"abd"));
    assert!(!bytes_equal(b"abc", b"ab"));
}

#[test]
fn weighing_ranks_each_candidate_by_its_own_quality() {
    let candidates = vec![
        AcceptCandidate {
            content_type: ApiContentType::Json,
            quality: Some(b"0.2".to_vec()),
        },
        AcceptCandidate {
            content_type: ApiContentType::Proto,
            quality: None,
        },
    ];
    let parsed = vec![Some(0.2f32.to_bits()), None];
    assert_eq!(weigh(&candidates, &parsed), Some(ApiContentType::Proto));
    let parsed = vec![Some(2.0f32.to_bits()), Some(9.0f32.to_bits())];
    assert_eq!(weigh(&candidates, &parsed), Some(ApiContentType::Json));
    assert_eq!(weigh(&Vec::new(), &Vec::new()), None);
}
