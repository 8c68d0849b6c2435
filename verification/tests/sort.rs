use ax_exchange_sdk::protocol::sort::{SortDirection, SortField, SortFields};

fn parse_json_sort(json: &str) -> Result<SortFields, String> {
    let raw: String = serde_json::from_str(json).unwrap();
    SortFields::from_sort_string(&raw)
}

fn parse_json_sort_list(json: &str) -> Result<SortFields, String> {
    let raw: Vec<String> = serde_json::from_str(json).unwrap();
    SortFields::from_sort_strings(&raw)
}

fn parse_query_sort(query: &str) -> Result<SortFields, String> {
    let pairs: Vec<(String, String)> = serde_urlencoded::from_str(query).unwrap();
    let (_, value) = pairs.into_iter().find(|(k, _)| k == "sort").unwrap();
    SortFields::from_sort_string(&value)
}

#[test]
fn deserializes_from_string_and_splits_commas() {
    let parsed = parse_json_sort(r#""a:asc,b:desc""#).unwrap();
    assert_eq!(
        parsed,
        SortFields::new(vec![
            SortField {
                field: "a".to_string(),
                direction: SortDirection::Asc,
            },
            SortField {
                field: "b".to_string(),
                direction: SortDirection::Desc,
            },
        ])
    );
}

#[test]
fn deserializes_from_list_and_flattens_commas() {
    let parsed = parse_json_sort_list(r#"["a:asc,b:desc","c"]"#).unwrap();
    assert_eq!(
        parsed,
        SortFields::new(vec![
            SortField {
                field: "a".to_string(),
                direction: SortDirection::Asc,
            },
            SortField {
                field: "b".to_string(),
                direction: SortDirection::Desc,
            },
            SortField {
                field: "c".to_string(),
                direction: SortDirection::Asc,
            },
        ])
    );
}

#[test]
fn invalid_direction_errors_match_existing_message() {
    let err = parse_json_sort(r#""a:sideways""#).unwrap_err();
    assert!(err.to_string().contains("invalid sort direction: sideways"));
}

#[test]
fn serializes_as_list_of_strings() {
    let sort = SortFields::new(vec![
        SortField {
            field: "a".to_string(),
            direction: SortDirection::Asc,
        },
        SortField {
            field: "b".to_string(),
            direction: SortDirection::Desc,
        },
    ]);
    let json = serde_json::to_string(&sort.to_strings()).unwrap();
    assert_eq!(json, r#"["a:asc","b:desc"]"#);
}

#[test]
fn query_params_deserialize_from_single_sort_param() {
    let parsed = parse_query_sort("sort=a:asc,b:desc").unwrap();
    assert_eq!(
        parsed,
        SortFields::new(vec![
            SortField {
                field: "a".to_string(),
                direction: SortDirection::Asc,
            },
            SortField {
                field: "b".to_string(),
                direction: SortDirection::Desc,
            },
        ])
    );
}

#[test]
fn query_params_default_direction_is_asc() {
    let parsed = parse_query_sort("sort=a").unwrap();
    assert_eq!(
        parsed,
        SortFields::new(vec![SortField {
            field: "a".to_string(),
            direction: SortDirection::Asc,
        }])
    );
}

#[test]
fn query_params_trims_whitespace_in_sort_string() {
    let parsed = parse_query_sort("sort=a:asc,%20b:desc").unwrap();
    assert_eq!(
        parsed,
        SortFields::new(vec![
            SortField {
                field: "a".to_string(),
                direction: SortDirection::Asc,
            },
            SortField {
                field: "b".to_string(),
                direction: SortDirection::Desc,
            },
        ])
    );
}

#[test]
fn rejects_empty_field_name() {
    let err = ":asc".parse::<SortField>().unwrap_err();
    assert_eq!(err, "invalid sort field");
}

#[test]
fn rejects_leading_trailing_commas() {
    assert!(parse_json_sort(r#"",a:asc""#).is_err());
    assert!(parse_json_sort(r#""a:asc,""#).is_err());
    assert!(parse_json_sort(r#""a:asc,,b:desc""#).is_err());
}

#[test]
fn mixed_case_direction() {
    let parsed = "name:DESC".parse::<SortField>().unwrap();
    assert_eq!(parsed.direction, SortDirection::Desc);

    let parsed = "name:Asc".parse::<SortField>().unwrap();
    assert_eq!(parsed.direction, SortDirection::Asc);
}

#[test]
fn empty_string_deserializes_to_empty_sort_fields() {
    let parsed = parse_json_sort(r#""""#).unwrap();
    assert_eq!(parsed, SortFields::default());
}

#[test]
fn dir_returns_default_when_missing() {
    let sort = SortFields::new(vec![SortField {
        field: "a".to_string(),
        direction: SortDirection::Desc,
    }]);
    assert_eq!(sort.dir("b", SortDirection::Asc), SortDirection::Asc);
    assert_eq!(sort.dir("a", SortDirection::Asc), SortDirection::Desc);
}

#[test]
fn or_default_populates_when_empty() {
    let mut sort = SortFields::default();
    sort.or_default(&[("a", SortDirection::Asc)]);
    assert_eq!(
        sort,
        SortFields::new(vec![SortField {
            field: "a".to_string(),
            direction: SortDirection::Asc,
        }])
    );
}

#[test]
fn or_default_noop_when_nonempty() {
    let mut sort = SortFields::new(vec![SortField {
        field: "b".to_string(),
        direction: SortDirection::Desc,
    }]);
    sort.or_default(&[("a", SortDirection::Asc)]);
    assert_eq!(
        sort,
        SortFields::new(vec![SortField {
            field: "b".to_string(),
            direction: SortDirection::Desc,
        }])
    );
}

#[test]
fn validate_rejects_unknown_field() {
    let mut sort = SortFields::new(vec![SortField {
        field: "c".to_string(),
        direction: SortDirection::Asc,
    }]);
    let err = sort.validate(&["a", "b"]).unwrap_err();
    assert_eq!(err, "invalid sort field: c");
}

#[test]
fn with_tiebreaker_appends_only_if_missing() {
    let mut sort = SortFields::new(vec![SortField {
        field: "a".to_string(),
        direction: SortDirection::Desc,
    }]);
    sort.with_tie_breaker("id", SortDirection::Asc);
    assert_eq!(
        sort,
        SortFields::new(vec![
            SortField {
                field: "a".to_string(),
                direction: SortDirection::Desc,
            },
            SortField {
                field: "id".to_string(),
                direction: SortDirection::Asc,
            },
        ])
    );

    // already present — should not duplicate or change direction
    let mut sort = SortFields::new(vec![
        SortField {
            field: "a".to_string(),
            direction: SortDirection::Desc,
        },
        SortField {
            field: "id".to_string(),
            direction: SortDirection::Desc,
        },
    ]);
    sort.with_tie_breaker("id", SortDirection::Asc);
    assert_eq!(
        sort,
        SortFields::new(vec![
            SortField {
                field: "a".to_string(),
                direction: SortDirection::Desc,
            },
            SortField {
                field: "id".to_string(),
                direction: SortDirection::Desc,
            },
        ])
    );
}

#[test]
fn builder_chain() {
    let mut sort = SortFields::default();
    sort.or_default(&[("a", SortDirection::Asc)])
        .validate(&["a", "id"])
        .unwrap()
        .with_tie_breaker("id", SortDirection::Asc);
    assert_eq!(
        sort,
        SortFields::new(vec![
            SortField {
                field: "a".to_string(),
                direction: SortDirection::Asc,
            },
            SortField {
                field: "id".to_string(),
                direction: SortDirection::Asc,
            },
        ])
    );
}

#[test]
fn sort_field_text_round_trips() {
    let field = SortField {
        field: "created_at".to_string(),
        direction: SortDirection::Desc,
    };
    let text = field.to_string();
    assert_eq!(text, "created_at:desc");
    assert_eq!(SortField::parse(&text).unwrap(), field);
}

#[test]
fn sort_list_round_trips_through_strings() {
    let sort = SortFields::new(vec![
        SortField {
            field: "a".to_string(),
            direction: SortDirection::Desc,
        },
        SortField {
            field: "b".to_string(),
            direction: SortDirection::Asc,
        },
    ]);
    assert_eq!(SortFields::from_sort_strings(&sort.to_strings()).unwrap(), sort);
}

#[test]
fn sort_field_trims_around_colon_and_direction() {
    let parsed = "  price :  DeSc  ".parse::<SortField>().unwrap();
    assert_eq!(parsed.field, "price");
    assert_eq!(parsed.direction, SortDirection::Desc);
}

#[test]
fn sort_field_rejects_blank_text() {
    assert_eq!(SortField::parse("   ").unwrap_err(), "invalid sort field");
}

#[test]
fn sort_direction_parse_and_text() {
    assert_eq!(" ASC ".parse::<SortDirection>().unwrap(), SortDirection::Asc);
    assert_eq!(
        SortDirection::parse("Up").unwrap_err(),
        "invalid sort direction: up"
    );
    assert_eq!(SortDirection::Desc.to_string(), "desc");
    assert_eq!(SortDirection::Asc.as_str(), "asc");
}

#[test]
fn validate_accepts_known_fields() {
    let mut sort = SortFields::new(vec![SortField {
        field: "b".to_string(),
        direction: SortDirection::Asc,
    }]);
    assert!(sort.validate(&["a", "b"]).is_ok());
}

#[test]
fn dir_uses_first_matching_key() {
    let sort = SortFields::new(vec![
        SortField {
            field: "a".to_string(),
            direction: SortDirection::Desc,
        },
        SortField {
            field: "a".to_string(),
            direction: SortDirection::Asc,
        },
    ]);
    assert_eq!(sort.dir("a", SortDirection::Asc), SortDirection::Desc);
}

#[test]
fn with_tie_breaker_twice_adds_once() {
    let mut sort = SortFields::default();
    sort.with_tie_breaker("id", SortDirection::Asc)
        .with_tie_breaker("id", SortDirection::Desc);
    assert_eq!(sort.to_strings(), vec!["id:asc".to_string()]);
}
