use opentelemetry_sdk::metrics::{Aggregation, Stream};

use opentelemetry_c_sdk::abi::{OtelArrayView, OtelStatus, OtelStringView};
use opentelemetry_c_sdk::double_bits::{finite, less};
use opentelemetry_c_sdk::error::ErrorState;
use opentelemetry_c_sdk::metric_kind::OtelMetricInstrumentKind;
use opentelemetry_c_sdk::metric_view::{
    copy_boundaries, kind_matches, otel_metric_view_builder_add_allowed_attribute,
    otel_metric_view_builder_build, otel_metric_view_builder_destroy,
    otel_metric_view_builder_new, otel_metric_view_builder_set_aggregation,
    otel_metric_view_builder_set_attribute_filter_enabled,
    otel_metric_view_builder_set_cardinality_limit,
    otel_metric_view_builder_set_explicit_histogram,
    otel_metric_view_builder_set_exponential_histogram,
    otel_metric_view_builder_set_instrument_kind, otel_metric_view_builder_set_meter_name,
    otel_metric_view_builder_set_name_pattern, otel_metric_view_builder_set_output_description,
    otel_metric_view_builder_set_output_name, otel_metric_view_builder_set_output_unit,
    otel_metric_view_builder_set_unit, otel_metric_view_destroy, stream, wildcard_matches,
    AggregationConfig, Instrument, OtelMetricView, OtelMetricViewBuilder, ANY_KIND,
};

fn sv(value: &str) -> OtelStringView<'_> {
    OtelStringView::of(value)
}

fn built(errors: &mut ErrorState, builder: &mut OtelMetricViewBuilder) -> OtelMetricView {
    let mut out = None;
    assert_eq!(
        otel_metric_view_builder_build(errors, Some(builder), Some(&mut out)),
        OtelStatus::Success
    );
    out.expect("view")
}

#[test]
fn wildcards_match_prefix_and_suffix() {
    assert!(wildcard_matches("*", ""));
    assert!(wildcard_matches("*", "anything"));
    assert!(wildcard_matches("http.*", "http.server"));
    assert!(!wildcard_matches("http.*", "http"));
    assert!(wildcard_matches("*.duration", "http.duration"));
    assert!(wildcard_matches("http.*.duration", "http.server.duration"));
    assert!(wildcard_matches("a*a", "aa"));
    assert!(!wildcard_matches("a*a", "a"));
    assert!(wildcard_matches("exact", "exact"));
    assert!(!wildcard_matches("exact", "exactly"));
    // Only the first star is one.
    assert!(wildcard_matches("a*b*", "axb*"));
    assert!(!wildcard_matches("a*b*", "axbx"));
    assert!(wildcard_matches("", ""));
    assert!(!wildcard_matches("", "x"));
    assert!(wildcard_matches("\u{e9}*\u{e9}", "\u{e9}\u{e9}"));
}

#[test]
fn views_select_by_name_meter_unit_and_kind() {
    let mut errors = ErrorState::new();
    let mut builder = otel_metric_view_builder_new(&mut errors);
    let instrument = Instrument {
        name: "http.server.duration",
        meter_name: "web",
        unit: "ms",
        kind: OtelMetricInstrumentKind::Histogram,
    };
    assert!(built(&mut errors, &mut builder)
        .config
        .apply(&instrument)
        .is_some());

    otel_metric_view_builder_set_name_pattern(&mut errors, Some(&mut builder), sv("http.*"));
    otel_metric_view_builder_set_meter_name(&mut errors, Some(&mut builder), sv("web"));
    otel_metric_view_builder_set_unit(&mut errors, Some(&mut builder), sv("ms"));
    otel_metric_view_builder_set_instrument_kind(&mut errors, Some(&mut builder), 3);
    otel_metric_view_builder_set_output_name(&mut errors, Some(&mut builder), sv("renamed"));
    otel_metric_view_builder_set_output_description(
        &mut errors,
        Some(&mut builder),
        sv("described"),
    );
    otel_metric_view_builder_set_output_unit(&mut errors, Some(&mut builder), sv("s"));
    otel_metric_view_builder_add_allowed_attribute(&mut errors, Some(&mut builder), sv("route"));
    otel_metric_view_builder_set_cardinality_limit(&mut errors, Some(&mut builder), 10);
    let view = built(&mut errors, &mut builder);
    let settings = view.config.apply(&instrument).expect("selected");
    assert_eq!(settings.name.map(String::as_str), Some("renamed"));
    assert_eq!(settings.description.map(String::as_str), Some("described"));
    assert_eq!(settings.unit.map(String::as_str), Some("s"));
    assert_eq!(
        settings.allowed_attributes,
        Some(&vec!["route".to_owned()])
    );
    assert_eq!(settings.cardinality_limit, Some(10));
    assert!(matches!(settings.aggregation, AggregationConfig::Default));

    let others = [
        Instrument {
            name: "db.duration",
            ..instrument
        },
        Instrument {
            meter_name: "db",
            ..instrument
        },
        Instrument {
            unit: "s",
            ..instrument
        },
        Instrument {
            kind: OtelMetricInstrumentKind::Counter,
            ..instrument
        },
    ];
    for other in others {
        assert!(view.config.apply(&other).is_none());
    }
}

#[test]
fn kinds_match_their_code_and_every_kind_matches_any() {
    for code in 0..7u32 {
        let kind = OtelMetricInstrumentKind::from_u32(code).expect("kind");
        for other in 0..7u32 {
            assert_eq!(kind_matches(other, kind), other == code);
        }
        assert!(kind_matches(ANY_KIND, kind));
    }
    assert!(OtelMetricInstrumentKind::from_u32(7).is_none());
}

#[test]
fn output_units_are_refused_as_the_sdk_refuses_them() {
    let mut errors = ErrorState::new();
    let longest = "u".repeat(63);
    let too_long = "u".repeat(64);
    for unit in ["", "ms", "\u{b5}s", longest.as_str(), too_long.as_str()] {
        let mut builder = otel_metric_view_builder_new(&mut errors);
        otel_metric_view_builder_set_output_unit(&mut errors, Some(&mut builder), sv(unit));
        let ours = stream(&builder.config).map(|_| ());
        let theirs = Stream::builder()
            .with_unit(unit.to_owned())
            .with_aggregation(Aggregation::Default)
            .build()
            .map(|_| ())
            .map_err(|error| error.to_string());
        if unit.is_empty() {
            assert!(ours.is_ok());
        } else {
            assert_eq!(ours, theirs);
        }
        let mut out = None;
        let status =
            otel_metric_view_builder_build(&mut errors, Some(&mut builder), Some(&mut out));
        assert_eq!(status == OtelStatus::Success, theirs.is_ok());
        assert_eq!(out.is_some(), theirs.is_ok());
        if let Err(cause) = theirs {
            assert_eq!(status, OtelStatus::InvalidConfig);
            assert_eq!(
                errors.message,
                format!("invalid metric view stream: {cause}")
            );
        }
    }
}

#[test]
fn accepted_aggregations_are_accepted_by_the_sdk() {
    let mut errors = ErrorState::new();
    let mut builder = otel_metric_view_builder_new(&mut errors);
    let cases: [(&[f64], bool); 8] = [
        (&[], true),
        (&[0.0], true),
        (&[-1.0, 0.0, 1.0], true),
        (&[1.0, 1.0], false),
        (&[2.0, 1.0], false),
        (&[f64::NAN], false),
        (&[f64::INFINITY], false),
        (&[0.0, -0.0], false),
    ];
    for (boundaries, accepted) in cases {
        let bits: Vec<u64> = boundaries.iter().map(|d| d.to_bits()).collect();
        assert_eq!(
            copy_boundaries(&mut errors, OtelArrayView::Data(&bits)).is_ok(),
            accepted
        );
        let status = otel_metric_view_builder_set_explicit_histogram(
            &mut errors,
            Some(&mut builder),
            OtelArrayView::Data(&bits),
            1,
        );
        assert_eq!(status == OtelStatus::Success, accepted);
        let theirs = Stream::builder()
            .with_aggregation(Aggregation::ExplicitBucketHistogram {
                boundaries: boundaries.to_vec(),
                record_min_max: true,
            })
            .build();
        assert_eq!(theirs.is_ok(), accepted);
    }
    assert!(copy_boundaries(&mut errors, OtelArrayView::Null(1)).is_err());
    for (max_size, max_scale, accepted) in [
        (160, 20, true),
        (1, -10, true),
        (0, 0, false),
        (1, 21, false),
        (1, -11, false),
    ] {
        let status = otel_metric_view_builder_set_exponential_histogram(
            &mut errors,
            Some(&mut builder),
            max_size,
            max_scale,
            0,
        );
        assert_eq!(status == OtelStatus::Success, accepted);
        let theirs = Stream::builder()
            .with_aggregation(Aggregation::Base2ExponentialHistogram {
                max_size,
                max_scale,
                record_min_max: false,
            })
            .build();
        assert_eq!(theirs.is_ok(), accepted);
    }
}

#[test]
fn view_setters_reject_bad_values_and_keep_the_builder() {
    let mut errors = ErrorState::new();
    let mut builder = otel_metric_view_builder_new(&mut errors);
    assert_ne!(
        otel_metric_view_builder_set_instrument_kind(&mut errors, Some(&mut builder), 7),
        OtelStatus::Success
    );
    assert_eq!(builder.config.kind, ANY_KIND);
    assert_ne!(
        otel_metric_view_builder_set_cardinality_limit(&mut errors, Some(&mut builder), 0),
        OtelStatus::Success
    );
    assert_ne!(
        otel_metric_view_builder_set_cardinality_limit(
            &mut errors,
            Some(&mut builder),
            u64::MAX
        ),
        OtelStatus::Success
    );
    assert!(builder.config.cardinality_limit.is_none());
    assert_ne!(
        otel_metric_view_builder_set_aggregation(&mut errors, Some(&mut builder), 4),
        OtelStatus::Success
    );
    let unreadable = OtelStringView {
        bytes: Some(&[0xFF]),
    };
    assert_eq!(
        otel_metric_view_builder_set_name_pattern(&mut errors, Some(&mut builder), unreadable),
        OtelStatus::InvalidUtf8
    );
    assert!(builder.config.name_pattern.is_none());
    assert_eq!(
        otel_metric_view_builder_set_name_pattern(&mut errors, None, sv("x")),
        OtelStatus::InvalidArgument
    );
    for (code, name) in [(0, "Default"), (1, "Drop"), (2, "Sum"), (3, "LastValue")] {
        assert_eq!(
            otel_metric_view_builder_set_aggregation(&mut errors, Some(&mut builder), code),
            OtelStatus::Success
        );
        assert_eq!(format!("{:?}", builder.config.aggregation), name);
    }
    otel_metric_view_builder_set_attribute_filter_enabled(&mut errors, Some(&mut builder), 1);
    assert!(builder.config.attribute_filter_enabled);
    otel_metric_view_builder_set_attribute_filter_enabled(&mut errors, Some(&mut builder), 0);
    assert!(!builder.config.attribute_filter_enabled);
    assert_eq!(
        otel_metric_view_builder_build(&mut errors, Some(&mut builder), None),
        OtelStatus::InvalidArgument
    );
    let mut view = Some(built(&mut errors, &mut builder));
    otel_metric_view_destroy(&mut view);
    assert!(view.is_none());
    let mut slot = Some(builder);
    otel_metric_view_builder_destroy(&mut slot);
    assert!(slot.is_none());
}

#[test]
fn doubles_compare_by_their_bits_as_doubles_do() {
    let samples = [
        0.0,
        -0.0,
        1.0,
        -1.0,
        f64::MIN_POSITIVE,
        -f64::MIN_POSITIVE,
        f64::from_bits(1),
        -f64::from_bits(1),
        f64::MAX,
        f64::MIN,
        f64::INFINITY,
        f64::NEG_INFINITY,
        f64::NAN,
        0.1,
        1e300,
        -1e-300,
    ];
    for a in samples {
        assert_eq!(finite(a.to_bits()), a.is_finite());
        for b in samples {
            if a.is_finite() && b.is_finite() {
                assert_eq!(less(a.to_bits(), b.to_bits()), a < b, "{a} < {b}");
            }
        }
    }
}
