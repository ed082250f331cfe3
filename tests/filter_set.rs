use cluster_state::filter_set::{FilterSet, NamedFactory};

fn named(name: &str, tag: u32) -> NamedFactory<u32> {
    NamedFactory { name: name.to_string(), factory: tag }
}

fn drain(set: FilterSet<u32>) -> Vec<(String, u32)> {
    let mut it = set.into_iter();
    let mut out = Vec::new();
    while let Some(f) = it.next() {
        out.push((f.name, f.factory));
    }
    out
}

fn pairs(v: &[(&str, u32)]) -> Vec<(String, u32)> {
    v.iter().map(|(n, t)| (n.to_string(), *t)).collect()
}

#[test]
fn with_keeps_distinct_names() {
    let set = FilterSet::with(vec![named("a", 1), named("b", 2)]);
    assert_eq!(2, set.len());
    assert_eq!(pairs(&[("a", 1), ("b", 2)]), drain(set));
}

#[test]
fn with_later_factory_overrides_same_name() {
    let set = FilterSet::with(vec![named("debug", 1), named("compress", 2), named("debug", 3)]);
    assert_eq!(2, set.len());
    assert_eq!(pairs(&[("debug", 3), ("compress", 2)]), drain(set));
}

#[test]
fn with_nothing_is_empty() {
    let set: FilterSet<u32> = FilterSet::with(vec![]);
    assert_eq!(0, set.len());
    assert!(set.into_iter().next().is_none());
}

#[test]
fn default_with_overrides_defaults_by_name() {
    let set = FilterSet::default_with(
        vec![named("debug", 1), named("rate_limit", 2), named("compress", 3)],
        vec![named("compress", 30), named("token_router", 4)],
    );
    assert_eq!(4, set.len());
    assert_eq!(
        pairs(&[("debug", 1), ("rate_limit", 2), ("compress", 30), ("token_router", 4)]),
        drain(set)
    );
}

#[test]
fn default_with_no_filters_keeps_defaults() {
    let set = FilterSet::default_with(vec![named("debug", 1), named("compress", 2)], vec![]);
    assert_eq!(pairs(&[("debug", 1), ("compress", 2)]), drain(set));
}
