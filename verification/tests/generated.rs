use ex_monty::{
    decode_monty_object, encode_monty_object, is_faithful, roundtrip, BigInt, Sign, Term, Value,
};

/// A small deterministic generator (a linear congruential one).
struct Source(u64);

impl Source {
    fn next(&mut self) -> u64 {
        self.0 = self.0.wrapping_mul(6364136223846793005).wrapping_add(1442695040888963407);
        self.0 >> 33
    }

    fn below(&mut self, n: u64) -> u64 {
        self.next() % n
    }

    fn text(&mut self) -> String {
        let alphabet = ['a', 'b', 'Z', '_', 'é', '☃', ' ', '0'];
        (0..self.below(6)).map(|_| alphabet[self.below(8) as usize]).collect()
    }

    fn bytes(&mut self) -> Vec<u8> {
        (0..self.below(6)).map(|_| self.below(256) as u8).collect()
    }

    /// A value with a faithful host form. Keys and members are told apart
    /// by their position.
    fn value(&mut self, depth: u32) -> Value {
        let kinds = if depth == 0 { 12 } else { 18 };
        match self.below(kinds) {
            11 => {
                let types = ["KeyError", "ValueError", "OSError", "StopIteration"];
                Value::Exception {
                    exc_type: types[self.below(4) as usize].to_string(),
                    arg: if self.below(2) == 0 { None } else { Some(self.text()) },
                }
            }
            0 => Value::NoneValue,
            1 => Value::Bool(self.below(2) == 0),
            2 => Value::Int(self.next() as i64 - (1 << 30)),
            3 => {
                let mut magnitude = vec![1 + self.below(255) as u8];
                magnitude.extend((0..8 + self.below(8)).map(|_| self.below(256) as u8));
                let sign = if self.below(2) == 0 { Sign::Plus } else { Sign::Minus };
                Value::BigInt(BigInt::from_bytes_be(sign, &magnitude))
            }
            4 => Value::Float(self.next()),
            5 => Value::Str(self.text()),
            6 => Value::Bytes(self.bytes()),
            7 => Value::Ellipsis,
            8 => Value::Path(self.text()),
            9 => Value::Repr(self.text()),
            10 => Value::Int(i64::MIN + self.below(3) as i64),
            12 => Value::List(self.values(depth)),
            13 => Value::Tuple(self.values(depth)),
            14 => Value::Dict(
                (0..self.below(4))
                    .map(|i| (Value::Tuple(vec![Value::Int(i as i64), self.value(0)]), self.value(depth - 1)))
                    .collect(),
            ),
            15 => Value::SetValue(
                (0..self.below(4))
                    .map(|i| Value::Tuple(vec![Value::Int(i as i64), self.value(depth - 1)]))
                    .collect(),
            ),
            16 => {
                let values = self.values(depth);
                Value::NamedTuple {
                    name: format!("T{}", self.text()),
                    field_names: values.iter().map(|_| self.text()).collect(),
                    values,
                }
            }
            _ => {
                let values = self.values(depth);
                let attrs: Vec<(String, Value)> = values
                    .into_iter()
                    .enumerate()
                    .map(|(i, v)| (format!("{}{}", self.text(), i), v))
                    .collect();
                Value::Dataclass {
                    name: self.text(),
                    field_names: attrs.iter().map(|(n, _)| n.clone()).collect(),
                    attrs,
                    frozen: self.below(2) == 0,
                }
            }
        }
    }

    fn values(&mut self, depth: u32) -> Vec<Value> {
        (0..self.below(4)).map(|_| self.value(depth - 1)).collect()
    }

    /// Any term, faithful form of a value or not.
    fn term(&mut self, depth: u32) -> Term {
        let kinds = if depth == 0 { 6 } else { 9 };
        let atoms = [
            "nil", "true", "ok", "bytes", "path", "repr", "named_tuple", "__bigint__",
            "__struct__", "map", "Elixir.MapSet", "Elixir.ExMonty.Dataclass", "name", "fields",
            "frozen", "stat_result", "Elixir.ExMonty.Exception", "type", "message", "key_error",
        ];
        match self.below(kinds) {
            0 => Term::Atom(atoms[self.below(20) as usize].to_string()),
            1 => Term::Integer(self.below(5) as i64 - 2),
            2 => Term::BigInteger(BigInt::from_bytes_be(Sign::Plus, &self.bytes())),
            3 => Term::Float(self.next()),
            4 => Term::Binary(self.bytes()),
            5 => Term::Resource,
            6 => Term::Tuple((0..self.below(4)).map(|_| self.term(depth - 1)).collect()),
            7 => Term::List((0..self.below(4)).map(|_| self.term(depth - 1)).collect()),
            _ => Term::Mapping(
                (0..self.below(4)).map(|_| (self.term(depth - 1), self.term(depth - 1))).collect(),
            ),
        }
    }
}

#[test]
fn generated_faithful_values_come_back() {
    let mut source = Source(2024);
    for _ in 0..3000 {
        let value = source.value(3);
        assert!(is_faithful(&value), "{value:?}");
        let encoded = encode_monty_object(&value);
        assert_eq!(decode_monty_object(&encoded), Ok(value.duplicate()), "through {encoded:?}");
        assert_eq!(roundtrip(&value), Ok(value));
    }
}

#[test]
fn generated_terms_decode_to_values_that_encode() {
    // Whatever a term decodes to can be encoded, and what that decodes to
    // encodes to the same term again: one round settles the form.
    let mut source = Source(7);
    let mut decoded = 0;
    for _ in 0..5000 {
        let term = source.term(3);
        if let Ok(value) = decode_monty_object(&term) {
            decoded += 1;
            let once = encode_monty_object(&value);
            if let Ok(again) = decode_monty_object(&once) {
                let twice = encode_monty_object(&again);
                assert_eq!(
                    decode_monty_object(&twice).map(|v| encode_monty_object(&v)),
                    Ok(twice),
                    "from {term:?}"
                );
            }
        }
    }
    assert!(decoded > 1000);
}

#[test]
fn generated_terms_are_the_same_as_their_copies() {
    let mut source = Source(99);
    for _ in 0..2000 {
        let term = source.term(3);
        assert!(term.same(&term.duplicate()));
        assert_eq!(term.duplicate(), term);
    }
}

#[test]
fn generated_values_that_are_faithful_come_back() {
    // Whatever a term decodes to: where the value is faithful, it comes
    // back from its encoding as it went.
    let mut source = Source(31);
    let mut faithful = 0;
    for _ in 0..5000 {
        if let Ok(value) = decode_monty_object(&source.term(3)) {
            if is_faithful(&value) {
                faithful += 1;
                let back = roundtrip(&value).unwrap();
                assert!(back.same(&value), "{value:?}");
                assert_eq!(back, value);
            }
        }
    }
    assert!(faithful > 500);
}

#[test]
fn generated_values_are_the_same_as_their_copies() {
    let mut source = Source(5);
    let mut previous = Value::NoneValue;
    for _ in 0..2000 {
        let value = source.value(3);
        assert!(value.same(&value.duplicate()));
        assert_eq!(value.same(&previous), value == previous);
        previous = value;
    }
}
