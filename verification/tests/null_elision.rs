use json_prune::assembler::get_without_null_values;
use json_prune::cleaner::remove_null_values;
use json_prune::value::Json;

fn text(s: &str) -> Json {
    Json::String(s.to_string())
}

fn num(n: i64) -> Json {
    Json::Number(serde_json::Number::from(n))
}

fn arr(items: Vec<Json>) -> Json {
    Json::Array(items)
}

fn obj(members: Vec<(&str, Json)>) -> Json {
    Json::Object(members.into_iter().map(|(k, v)| (k.to_string(), v)).collect())
}

fn pruned(mut value: Json) -> Json {
    remove_null_values(&mut value).unwrap();
    value
}

fn copy_of(value: &Json) -> Json {
    match value {
        Json::Null => Json::Null,
        Json::Bool(b) => Json::Bool(*b),
        Json::Number(n) => Json::Number(n.clone()),
        Json::String(s) => Json::String(s.clone()),
        Json::Array(items) => Json::Array(items.iter().map(copy_of).collect()),
        Json::Object(members) => {
            Json::Object(members.iter().map(|(k, v)| (k.clone(), copy_of(v))).collect())
        }
    }
}

fn holds_null(v: &Json) -> bool {
    match v {
        Json::Null => true,
        Json::Array(items) => items.iter().any(holds_null),
        Json::Object(members) => members.iter().any(|(_, v)| holds_null(v)),
        _ => false,
    }
}

/// A document with nulls at several depths, and what is left of it.
fn mixed_document() -> (Json, Json) {
    let input = obj(vec![
        ("zeta", Json::Null),
        ("alpha", arr(vec![Json::Null, num(-3), arr(vec![Json::Null]), Json::Bool(false)])),
        ("mid", obj(vec![("x", Json::Null), ("y", obj(vec![("z", Json::Null)]))])),
        ("last", text("")),
    ]);
    let output = obj(vec![
        ("alpha", arr(vec![num(-3), arr(vec![]), Json::Bool(false)])),
        ("mid", obj(vec![("y", obj(vec![]))])),
        ("last", text("")),
    ]);
    (input, output)
}

#[test]
fn test_get_without_null_values() {
    let json_data = obj(vec![
        ("key1", text("value1")),
        ("key2", Json::Null),
        ("key3", obj(vec![("nested_key", Json::Null), ("another_key", text("value2"))])),
        (
            "key4",
            arr(vec![
                obj(vec![("some_key", Json::Null), ("good_key", text("yes i am"))]),
                Json::Null,
                text("item1"),
                Json::Null,
                text("item2"),
            ]),
        ),
    ]);

    let res = get_without_null_values(json_data).unwrap();

    let expected = obj(vec![
        ("key1", text("value1")),
        ("key3", obj(vec![("another_key", text("value2"))])),
        ("key4", arr(vec![obj(vec![("good_key", text("yes i am"))]), text("item1"), text("item2")])),
    ]);

    assert_eq!(res, expected);
}

#[test]
fn test_remove_null_values() {
    let mut json_data = obj(vec![
        ("key1", text("value1")),
        ("key2", Json::Null),
        ("key3", obj(vec![("nested_key", Json::Null), ("another_key", text("value2"))])),
        ("key4", arr(vec![Json::Null, text("item1"), Json::Null, text("item2")])),
    ]);

    remove_null_values(&mut json_data).unwrap();

    let expected = obj(vec![
        ("key1", text("value1")),
        ("key3", obj(vec![("another_key", text("value2"))])),
        ("key4", arr(vec![text("item1"), text("item2")])),
    ]);

    assert_eq!(json_data, expected);
}

#[test]
fn null_member_is_dropped_from_object() {
    let input = || obj(vec![("a", text("x")), ("b", Json::Null)]);
    let expected = obj(vec![("a", text("x"))]);
    assert_eq!(pruned(input()), expected);
    assert_eq!(get_without_null_values(input()), Some(expected));
}

#[test]
fn nested_null_member_is_dropped() {
    let input = || obj(vec![("a", obj(vec![("b", Json::Null), ("c", num(1))]))]);
    let expected = obj(vec![("a", obj(vec![("c", num(1))]))]);
    assert_eq!(pruned(input()), expected);
    assert_eq!(get_without_null_values(input()), Some(expected));
}

#[test]
fn null_elements_are_dropped_from_array() {
    let input = || arr(vec![Json::Null, num(1), Json::Null, num(2)]);
    let expected = arr(vec![num(1), num(2)]);
    assert_eq!(pruned(input()), expected);
    assert_eq!(get_without_null_values(input()), Some(expected));
}

#[test]
fn nulls_are_dropped_inside_array_inside_object() {
    let input =
        || obj(vec![("a", arr(vec![obj(vec![("x", Json::Null), ("y", num(1))]), Json::Null, text("s")]))]);
    let expected = obj(vec![("a", arr(vec![obj(vec![("y", num(1))]), text("s")]))]);
    assert_eq!(pruned(input()), expected);
    assert_eq!(get_without_null_values(input()), Some(expected));
}

#[test]
fn emptied_object_is_retained() {
    let input = || obj(vec![("a", obj(vec![("b", Json::Null)]))]);
    let expected = obj(vec![("a", obj(vec![]))]);
    assert_eq!(pruned(input()), expected);
    assert_eq!(get_without_null_values(input()), Some(expected));
}

#[test]
fn emptied_array_is_retained() {
    let input = || arr(vec![arr(vec![Json::Null, Json::Null]), Json::Null]);
    let expected = arr(vec![arr(vec![])]);
    assert_eq!(pruned(input()), expected);
    assert_eq!(get_without_null_values(input()), Some(expected));
}

#[test]
fn root_of_only_nulls_becomes_empty_container() {
    assert_eq!(pruned(arr(vec![Json::Null])), arr(vec![]));
    assert_eq!(pruned(obj(vec![("k", Json::Null)])), obj(vec![]));
    assert_eq!(get_without_null_values(arr(vec![Json::Null])), Some(arr(vec![])));
    assert_eq!(get_without_null_values(obj(vec![("k", Json::Null)])), Some(obj(vec![])));
}

#[test]
fn root_null_is_kept_in_place_and_absent_when_rebuilt() {
    let mut value = Json::Null;
    assert_eq!(remove_null_values(&mut value), Ok(()));
    assert_eq!(value, Json::Null);
    assert_eq!(get_without_null_values(Json::Null), None);
}

#[test]
fn scalars_are_left_alone() {
    for make in [|| Json::Bool(true), || num(0), || text("null"), || num(i64::MIN)] {
        assert_eq!(pruned(make()), make());
        assert_eq!(get_without_null_values(make()), Some(make()));
    }
    let big = || Json::Number(serde_json::Number::from(u64::MAX));
    assert_eq!(pruned(big()), big());
    assert_eq!(get_without_null_values(big()), Some(big()));
}

#[test]
fn float_numbers_are_carried_through() {
    let half = || Json::Number(serde_json::Number::from_f64(0.5).unwrap());
    let input = || arr(vec![half(), Json::Null, half()]);
    assert_eq!(pruned(input()), arr(vec![half(), half()]));
    assert_eq!(get_without_null_values(input()), Some(arr(vec![half(), half()])));
}

#[test]
fn empty_containers_stay_empty() {
    assert_eq!(pruned(arr(vec![])), arr(vec![]));
    assert_eq!(pruned(obj(vec![])), obj(vec![]));
    assert_eq!(get_without_null_values(arr(vec![])), Some(arr(vec![])));
    assert_eq!(get_without_null_values(obj(vec![])), Some(obj(vec![])));
}

#[test]
fn pruning_always_succeeds() {
    let (input, _) = mixed_document();
    let mut value = input;
    assert_eq!(remove_null_values(&mut value), Ok(()));
    let mut scalar = num(7);
    assert_eq!(remove_null_values(&mut scalar), Ok(()));
}

#[test]
fn no_null_is_left_at_any_depth() {
    let (input, _) = mixed_document();
    assert!(holds_null(&input));
    assert!(!holds_null(&pruned(input)));
    let (input, _) = mixed_document();
    assert!(!holds_null(&get_without_null_values(input).unwrap()));
}

#[test]
fn survivors_keep_their_order() {
    let input = || {
        arr(vec![num(5), Json::Null, num(4), num(3), Json::Null, Json::Null, num(2), num(1), Json::Null])
    };
    let expected = arr(vec![num(5), num(4), num(3), num(2), num(1)]);
    assert_eq!(pruned(input()), expected);
    assert_eq!(get_without_null_values(input()), Some(expected));

    let input = || {
        obj(vec![("z", num(1)), ("m", Json::Null), ("a", num(2)), ("q", Json::Null), ("b", num(3))])
    };
    let expected = obj(vec![("z", num(1)), ("a", num(2)), ("b", num(3))]);
    assert_eq!(pruned(input()), expected);
    assert_eq!(get_without_null_values(input()), Some(expected));
}

#[test]
fn order_matters_for_equality() {
    let forward = obj(vec![("a", num(1)), ("b", num(2))]);
    let backward = obj(vec![("b", num(2)), ("a", num(1))]);
    assert_ne!(pruned(forward), backward);
}

#[test]
fn null_free_document_is_unchanged() {
    let (_, clean) = mixed_document();
    let (_, same) = mixed_document();
    assert_eq!(pruned(clean), same);
    let (_, clean) = mixed_document();
    let (_, same) = mixed_document();
    assert_eq!(get_without_null_values(clean), Some(same));
}

#[test]
fn pruning_twice_is_pruning_once() {
    let (input, expected) = mixed_document();
    let once = pruned(input);
    assert_eq!(once, expected);
    let twice = pruned(once);
    assert_eq!(twice, expected);
}

#[test]
fn both_strategies_agree() {
    let (input, expected) = mixed_document();
    let (again, _) = mixed_document();
    let in_place = pruned(input);
    let rebuilt = get_without_null_values(again).unwrap();
    assert_eq!(in_place, rebuilt);
    assert_eq!(rebuilt, expected);
}

#[test]
fn deeply_nested_nulls_are_reached() {
    let mut input = arr(vec![Json::Null, text("core")]);
    let mut expected = arr(vec![text("core")]);
    for depth in 0..50 {
        if depth % 2 == 0 {
            input = obj(vec![("gone", Json::Null), ("down", input)]);
            expected = obj(vec![("down", expected)]);
        } else {
            input = arr(vec![Json::Null, input, Json::Null]);
            expected = arr(vec![expected]);
        }
    }
    let rebuilt = get_without_null_values(copy_of(&input)).unwrap();
    assert_eq!(pruned(input), expected);
    assert_eq!(rebuilt, expected);
}

#[test]
fn repeated_keys_are_each_judged_by_their_own_value() {
    let input = || obj(vec![("k", Json::Null), ("k", num(1)), ("k", Json::Null), ("k", num(2))]);
    let expected = obj(vec![("k", num(1)), ("k", num(2))]);
    assert_eq!(pruned(input()), expected);
    assert_eq!(get_without_null_values(input()), Some(expected));
}

#[test]
fn is_null_tells_null_from_the_rest() {
    assert!(Json::Null.is_null());
    assert!(!Json::Bool(false).is_null());
    assert!(!num(0).is_null());
    assert!(!text("").is_null());
    assert!(!arr(vec![]).is_null());
    assert!(!obj(vec![]).is_null());
    assert!(!arr(vec![Json::Null]).is_null());
}

#[test]
fn clone_is_a_deep_copy() {
    let (input, expected) = mixed_document();
    let copy = input.clone();
    assert_eq!(copy, input);
    let emptied = pruned(copy);
    assert_eq!(emptied, expected);
    assert!(holds_null(&input));
    assert_ne!(input, emptied);
}

#[test]
fn cloned_numbers_are_the_same_numbers() {
    let values = vec![
        num(0),
        num(-1),
        num(i64::MAX),
        Json::Number(serde_json::Number::from(u64::MAX)),
        Json::Number(serde_json::Number::from_f64(-2.25).unwrap()),
    ];
    for value in values {
        assert_eq!(value.clone(), value);
    }
    assert_ne!(num(1).clone(), num(2));
}

#[test]
fn distinct_keys_stay_distinct() {
    let (input, _) = mixed_document();
    let output = pruned(input);
    match output {
        Json::Object(members) => {
            let keys: Vec<&str> = members.iter().map(|(k, _)| k.as_str()).collect();
            assert_eq!(keys, vec!["alpha", "mid", "last"]);
        }
        other => panic!("pruning changed the variant: {:?}", other),
    }
}

#[test]
fn variant_of_the_root_is_kept() {
    assert!(matches!(pruned(arr(vec![Json::Null])), Json::Array(_)));
    assert!(matches!(pruned(obj(vec![("k", Json::Null)])), Json::Object(_)));
    assert!(matches!(pruned(text("s")), Json::String(_)));
    assert!(matches!(pruned(num(3)), Json::Number(_)));
    assert!(matches!(pruned(Json::Bool(true)), Json::Bool(true)));
    assert!(matches!(pruned(Json::Null), Json::Null));
}

#[test]
fn emptied_container_keeps_its_place_among_survivors() {
    let input = || {
        arr(vec![
            num(1),
            Json::Null,
            obj(vec![("only", Json::Null)]),
            Json::Null,
            arr(vec![Json::Null, Json::Null]),
            num(2),
        ])
    };
    let expected = arr(vec![num(1), obj(vec![]), arr(vec![]), num(2)]);
    assert_eq!(pruned(input()), expected);
    assert_eq!(get_without_null_values(input()), Some(expected));
}
