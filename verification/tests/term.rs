use ex_monty::names::{chars_of, name_less, sort_names};
use ex_monty::term::{map_find, map_get, map_put, str_equal};
use ex_monty::{BigInt, Term};

fn atom(name: &str) -> Term {
    Term::Atom(name.to_string())
}

#[test]
fn term_atom_and_text() {
    assert_eq!(Term::atom("ok"), atom("ok"));
    assert_eq!(Term::text("héllo"), Term::Binary("héllo".as_bytes().to_vec()));
    assert_eq!(Term::text(""), Term::Binary(vec![]));
    assert_eq!(Term::empty_list(), Term::List(vec![]));
}

#[test]
fn term_is_atom_named() {
    assert!(atom("nil").is_atom_named("nil"));
    assert!(!atom("nil").is_atom_named("Nil"));
    assert!(!atom("nil").is_atom_named(""));
    assert!(!Term::text("nil").is_atom_named("nil"));
}

#[test]
fn term_from_u64_picks_the_narrow_form_where_it_fits() {
    assert_eq!(Term::from_u64(0), Term::Integer(0));
    assert_eq!(Term::from_u64(i64::MAX as u64), Term::Integer(i64::MAX));
    assert_eq!(
        Term::from_u64(i64::MAX as u64 + 1),
        Term::BigInteger(BigInt::from_u64(i64::MAX as u64 + 1))
    );
    assert_eq!(Term::from_u64(u64::MAX), Term::BigInteger(BigInt::from_u64(u64::MAX)));
}

#[test]
fn map_put_binds_in_place_or_at_the_end() {
    let mut entries = Vec::new();
    map_put(&mut entries, atom("a"), Term::Integer(1));
    map_put(&mut entries, atom("b"), Term::Integer(2));
    map_put(&mut entries, Term::Integer(7), Term::Integer(3));
    assert_eq!(
        entries,
        vec![
            (atom("a"), Term::Integer(1)),
            (atom("b"), Term::Integer(2)),
            (Term::Integer(7), Term::Integer(3)),
        ]
    );
    map_put(&mut entries, atom("a"), Term::Integer(9));
    // The wide form of seven is the same key as the narrow one.
    map_put(&mut entries, Term::BigInteger(BigInt::from_u64(7)), Term::Integer(8));
    assert_eq!(entries.len(), 3);
    assert_eq!(entries[0], (atom("a"), Term::Integer(9)));
    assert_eq!(entries[1], (atom("b"), Term::Integer(2)));
    assert_eq!(entries[2].1, Term::Integer(8));
    assert!(entries[2].0.same(&Term::Integer(7)));
}

#[test]
fn map_get_finds_the_first_entry_with_the_key() {
    let entries = vec![
        (atom("a"), Term::Integer(1)),
        (Term::text("a"), Term::Integer(2)),
        (atom("a"), Term::Integer(3)),
    ];
    assert_eq!(map_get(&entries, &atom("a")), Some(&Term::Integer(1)));
    assert_eq!(map_get(&entries, &Term::text("a")), Some(&Term::Integer(2)));
    assert_eq!(map_get(&entries, &atom("b")), None);
    assert_eq!(map_find(&entries, &atom("a")), 0);
    assert_eq!(map_find(&entries, &Term::text("a")), 1);
    assert_eq!(map_find(&entries, &atom("b")), 3);
    assert_eq!(map_find(&vec![], &atom("a")), 0);
}

#[test]
fn str_equal_compares_characters() {
    assert!(str_equal("", ""));
    assert!(str_equal("añb", "añb"));
    assert!(!str_equal("a", "A"));
    assert!(!str_equal("a", "ab"));
}

#[test]
fn chars_of_yields_the_characters() {
    assert_eq!(chars_of("a☃é"), vec!['a', '☃', 'é']);
    assert_eq!(chars_of(""), Vec::<char>::new());
}

#[test]
fn name_less_is_the_order_of_strings() {
    let names = ["", "a", "A", "ab", "b", "é", "z", "~", "€", "𝄞", "aa", "a0"];
    for x in names {
        for y in names {
            assert_eq!(name_less(x, y), x < y, "{x:?} against {y:?}");
        }
    }
}

#[test]
fn sort_names_orders_and_keeps_every_name() {
    let names: Vec<String> =
        ["pear", "apple", "fig", "apple", "", "Zebra", "zebra"].iter().map(|s| s.to_string()).collect();
    let mut expected = names.clone();
    expected.sort();
    assert_eq!(sort_names(&names), expected);
    assert_eq!(sort_names(&vec![]), Vec::<String>::new());
    // What is in order stays as it is.
    assert_eq!(sort_names(&expected), expected);
}
