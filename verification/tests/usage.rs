use qdrant_values::ordered_map::OrderedMap;
use qdrant_values::usage::{HardwareUsage, InferenceUsage, ModelUsage, Usage};

#[test]
fn test_inference_usage_aggregation() {
    let mut models1 = OrderedMap::new();
    models1.insert("model_a".to_string(), ModelUsage { tokens: 100 });
    models1.insert("model_b".to_string(), ModelUsage { tokens: 200 });

    let mut models2 = OrderedMap::new();
    models2.insert("model_a".to_string(), ModelUsage { tokens: 50 });
    models2.insert("model_c".to_string(), ModelUsage { tokens: 300 });

    let usage1 = InferenceUsage { models: models1 };
    let usage2 = InferenceUsage { models: models2 };

    let aggregated = usage1.aggregate(usage2);

    // Check that model_a tokens were summed
    assert_eq!(aggregated.models.get("model_a").unwrap().tokens, 150);

    // Check that model_b was preserved
    assert_eq!(aggregated.models.get("model_b").unwrap().tokens, 200);

    // Check that model_c was added
    assert_eq!(aggregated.models.get("model_c").unwrap().tokens, 300);

    // Check that we have exactly 3 models
    assert_eq!(aggregated.models.len(), 3);
}

fn hardware(base: u64) -> HardwareUsage {
    HardwareUsage {
        cpu: base,
        payload_io_read: base + 1,
        payload_io_write: base + 2,
        payload_index_io_read: base + 3,
        payload_index_io_write: base + 4,
        vector_io_read: base + 5,
        vector_io_write: base + 6,
    }
}

#[test]
fn hardware_usage_adds_each_counter() {
    let sum = hardware(1).aggregate(hardware(2));
    assert_eq!(sum.cpu, 3);
    assert_eq!(sum.payload_io_read, 5);
    assert_eq!(sum.payload_io_write, 7);
    assert_eq!(sum.payload_index_io_read, 9);
    assert_eq!(sum.payload_index_io_write, 11);
    assert_eq!(sum.vector_io_read, 13);
    assert_eq!(sum.vector_io_write, 15);
}

#[test]
fn usage_keeps_the_side_that_is_present() {
    let mut models = OrderedMap::new();
    models.insert("m".to_string(), ModelUsage { tokens: 9 });
    let left = Usage { hardware: None, inference: Some(InferenceUsage { models }) };
    let right = Usage { hardware: Some(hardware(10)), inference: None };
    let merged = left.aggregate(right);
    assert_eq!(merged.hardware, Some(hardware(10)));
    let inference = merged.inference.unwrap();
    assert_eq!(inference.models.len(), 1);
    assert_eq!(inference.models.get("m"), Some(&ModelUsage { tokens: 9 }));
}

fn models(entries: &[(&str, u64)]) -> InferenceUsage {
    let mut models = OrderedMap::new();
    for (name, tokens) in entries {
        models.insert(name.to_string(), ModelUsage { tokens: *tokens });
    }
    InferenceUsage { models }
}

fn sorted(usage: &InferenceUsage) -> Vec<(String, u64)> {
    let mut all = Vec::new();
    for i in 0..usage.models.len() {
        all.push((usage.models.key_at(i).clone(), usage.models.value_at(i).tokens));
    }
    all.sort();
    all
}

fn usage(hardware_base: Option<u64>, entries: Option<&[(&str, u64)]>) -> Usage {
    Usage { hardware: hardware_base.map(hardware), inference: entries.map(models) }
}

fn plain(usage: &Usage) -> (Option<HardwareUsage>, Option<Vec<(String, u64)>>) {
    (usage.hardware, usage.inference.as_ref().map(sorted))
}

#[test]
fn model_usage_adds_the_tokens() {
    assert_eq!(ModelUsage { tokens: 100 }.aggregate(ModelUsage { tokens: 50 }).tokens, 150);
    assert_eq!(ModelUsage { tokens: 0 }.aggregate(ModelUsage { tokens: 0 }).tokens, 0);
}

#[test]
fn counters_stay_at_the_maximum() {
    assert_eq!(ModelUsage { tokens: u64::MAX }.aggregate(ModelUsage { tokens: 1 }).tokens, u64::MAX);
    assert_eq!(
        ModelUsage { tokens: u64::MAX - 1 }.aggregate(ModelUsage { tokens: 1 }).tokens,
        u64::MAX
    );
    let full = hardware(u64::MAX - 6);
    let sum = full.aggregate(hardware(1));
    assert_eq!(sum.cpu, u64::MAX - 5);
    assert_eq!(sum.payload_index_io_read, u64::MAX);
    assert_eq!(sum.vector_io_write, u64::MAX);
}

#[test]
fn inference_usage_keeps_the_order_of_the_first_side() {
    let merged = models(&[("b", 1), ("a", 2)]).aggregate(models(&[("c", 3), ("a", 4), ("d", 5)]));
    let keys: Vec<&str> =
        (0..merged.models.len()).map(|i| merged.models.key_at(i).as_str()).collect();
    assert_eq!(keys, vec!["b", "a", "c", "d"]);
    assert_eq!(merged.models.get("a").unwrap().tokens, 6);
}

#[test]
fn inference_usage_merges_with_an_empty_side() {
    let left = models(&[("a", 1)]).aggregate(models(&[]));
    assert_eq!(sorted(&left), vec![("a".to_string(), 1)]);
    let right = models(&[]).aggregate(models(&[("a", 1)]));
    assert_eq!(sorted(&right), vec![("a".to_string(), 1)]);
    assert_eq!(models(&[]).aggregate(models(&[])).models.len(), 0);
}

#[test]
fn inference_usage_aggregation_is_commutative() {
    let ab = models(&[("model_a", 100), ("model_b", 200)])
        .aggregate(models(&[("model_a", 50), ("model_c", 300)]));
    let ba = models(&[("model_a", 50), ("model_c", 300)])
        .aggregate(models(&[("model_a", 100), ("model_b", 200)]));
    assert_eq!(sorted(&ab), sorted(&ba));
}

#[test]
fn inference_usage_aggregation_is_associative() {
    let a = [("x", 1u64), ("y", 2)];
    let b = [("y", 10u64), ("z", 20)];
    let c = [("x", 100u64), ("z", 200), ("w", u64::MAX)];
    let left = models(&a).aggregate(models(&b)).aggregate(models(&c));
    let right = models(&a).aggregate(models(&b).aggregate(models(&c)));
    assert_eq!(sorted(&left), sorted(&right));
    assert_eq!(
        sorted(&left),
        vec![
            ("w".to_string(), u64::MAX),
            ("x".to_string(), 101),
            ("y".to_string(), 12),
            ("z".to_string(), 220)
        ]
    );
}

#[test]
fn usage_aggregation_is_commutative_and_associative() {
    let a = || usage(Some(1), Some(&[("m", 1)]));
    let b = || usage(None, Some(&[("m", 2), ("n", 3)]));
    let c = || usage(Some(5), None);
    assert_eq!(plain(&a().aggregate(b())), plain(&b().aggregate(a())));
    assert_eq!(plain(&a().aggregate(c())), plain(&c().aggregate(a())));
    assert_eq!(
        plain(&a().aggregate(b()).aggregate(c())),
        plain(&a().aggregate(b().aggregate(c())))
    );
    let total = a().aggregate(b()).aggregate(c());
    assert_eq!(total.hardware, Some(hardware(1).aggregate(hardware(5))));
    assert_eq!(
        sorted(total.inference.as_ref().unwrap()),
        vec![("m".to_string(), 3), ("n".to_string(), 3)]
    );
}

#[test]
fn aggregating_with_nothing_changes_nothing() {
    assert_eq!(HardwareUsage::aggregate_opts(Some(hardware(3)), None), Some(hardware(3)));
    assert_eq!(HardwareUsage::aggregate_opts(None, Some(hardware(3))), Some(hardware(3)));
    assert_eq!(HardwareUsage::aggregate_opts(None, None), None);
    assert_eq!(
        HardwareUsage::aggregate_opts(Some(hardware(1)), Some(hardware(2))),
        Some(hardware(1).aggregate(hardware(2)))
    );

    let kept = InferenceUsage::aggregate_opts(Some(models(&[("b", 2), ("a", 1)])), None).unwrap();
    assert_eq!(kept.models.key_at(0).as_str(), "b");
    assert_eq!(sorted(&kept), vec![("a".to_string(), 1), ("b".to_string(), 2)]);
    let kept = InferenceUsage::aggregate_opts(None, Some(models(&[("a", 1)]))).unwrap();
    assert_eq!(sorted(&kept), vec![("a".to_string(), 1)]);
    assert!(InferenceUsage::aggregate_opts(None, None).is_none());
    let both =
        InferenceUsage::aggregate_opts(Some(models(&[("a", 1)])), Some(models(&[("a", 2)])))
            .unwrap();
    assert_eq!(sorted(&both), vec![("a".to_string(), 3)]);

    let x = Usage::aggregate_opts(Some(usage(Some(1), Some(&[("m", 1)]))), None).unwrap();
    assert_eq!(plain(&x), plain(&usage(Some(1), Some(&[("m", 1)]))));
    let y = Usage::aggregate_opts(None, Some(usage(None, None))).unwrap();
    assert_eq!(plain(&y), (None, None));
    assert!(Usage::aggregate_opts(None, None).is_none());
    let z = Usage::aggregate_opts(Some(usage(Some(1), None)), Some(usage(Some(2), None))).unwrap();
    assert_eq!(z.hardware, Some(hardware(1).aggregate(hardware(2))));
    assert!(z.inference.is_none());
}
