use condey::{
    Form, FromPathParam, FromPathParamError, JsonErrorClass, JsonInterceptor, Path,
    PathExtractError, Responder, State, StateStore,
};

fn params(values: &[(&str, &str)]) -> Vec<(String, String)> {
    values.iter().map(|(k, v)| (k.to_string(), v.to_string())).collect()
}

#[test]
fn accept_num() {
    {
        let var = "42";
        let r: u8 = FromPathParam::from_path_param(var).unwrap();

        assert_eq!(r, 42);
    }
    {
        let var = "42";
        let r: u16 = FromPathParam::from_path_param(var).unwrap();

        assert_eq!(r, 42);
    }
    {
        let var = "42";
        let r: u32 = FromPathParam::from_path_param(var).unwrap();

        assert_eq!(r, 42);
    }
    {
        let var = "42";
        let r: u64 = FromPathParam::from_path_param(var).unwrap();

        assert_eq!(r, 42);
    }
    {
        let var = "42";
        let r: u128 = FromPathParam::from_path_param(var).unwrap();

        assert_eq!(r, 42);
    }
    {
        let var = "42";
        let r: i8 = FromPathParam::from_path_param(var).unwrap();

        assert_eq!(r, 42);
    }
    {
        let var = "42";
        let r: i16 = FromPathParam::from_path_param(var).unwrap();

        assert_eq!(r, 42);
    }
    {
        let var = "42";
        let r: i32 = FromPathParam::from_path_param(var).unwrap();

        assert_eq!(r, 42);
    }
    {
        let var = "42";
        let r: i64 = FromPathParam::from_path_param(var).unwrap();

        assert_eq!(r, 42);
    }
    {
        let var = "42";
        let r: i128 = FromPathParam::from_path_param(var).unwrap();

        assert_eq!(r, 42);
    }
    {
        let var = "42";
        let r: usize = FromPathParam::from_path_param(var).unwrap();

        assert_eq!(r, 42);
    }
    {
        let var = "42";
        let r: isize = FromPathParam::from_path_param(var).unwrap();

        assert_eq!(r, 42);
    }
    assert_eq!(usize::from_path_param("4x"), Err(FromPathParamError::ParseError));
    assert_eq!(u8::from_path_param("256"), Err(FromPathParamError::ParseError));
    assert_eq!(i8::from_path_param("-128"), Ok(-128));
    assert_eq!(isize::from_path_param("-7"), Ok(-7));
}

#[test]
fn parse_urlencoded() {
    struct StringParam(String);

    impl FromPathParam for StringParam {
        fn from_path_param(param: &str) -> Result<Self, FromPathParamError> {
            let s = String::from_path_param(param)?;
            Ok(StringParam(s))
        }
    }

    let urlencoded = "some%20parameter";
    let result = StringParam::from_path_param(urlencoded).unwrap();

    assert_eq!(result.0, "some parameter");
}

#[test]
fn numbers_are_checked() {
    assert_eq!(u64::from_path_param("+7"), Ok(7));
    assert_eq!(i32::from_path_param("-12"), Ok(-12));
    assert_eq!(u64::from_path_param("-1"), Err(FromPathParamError::ParseError));
    assert_eq!(u64::from_path_param("abc"), Err(FromPathParamError::ParseError));
    assert_eq!(u64::from_path_param(""), Err(FromPathParamError::ParseError));
    assert_eq!(u32::from_path_param("4294967296"), Err(FromPathParamError::ParseError));
    assert_eq!(u64::from_path_param("%31%32"), Ok(12));
    assert_eq!(String::from_path_param("%FF"), Err(FromPathParamError::Utf8Error));
    assert_eq!(String::from_path_param("100%"), Ok("100%".to_string()));
}

#[test]
fn path_values_are_decoded_in_order() {
    let p = params(&[("zeta", "ab%20c"), ("alpha", "9")]);
    let Path((name, id)) = Path::<(String, u64)>::from_params(&p).unwrap();
    assert_eq!(name, "ab c");
    assert_eq!(id, 9);
}

#[test]
fn missing_path_value_is_exhausted() {
    let p = params(&[("id", "9")]);
    let r = Path::<(u64, String)>::from_params(&p);
    assert!(matches!(r, Err(PathExtractError::ExhaustedPathIterator)));
    let r = Path::<(u64,)>::from_params(&params(&[("id", "x")]));
    assert!(matches!(
        r,
        Err(PathExtractError::InvalidParam(FromPathParamError::ParseError))
    ));
    let response = PathExtractError::ExhaustedPathIterator.respond_to();
    assert_eq!(response.status.as_u16(), 500);
}

#[test]
fn unregistered_state_is_500() {
    let mut store: StateStore<u32> = StateStore::new();
    store.insert(1, 10);
    assert_eq!(*store.lookup(1).unwrap(), 10);
    let missing = store.lookup(2).unwrap_err();
    assert_eq!(missing.tag, 2);
    let response = missing.respond_to();
    assert_eq!(response.status.as_u16(), 500);
    assert!(response.body.is_empty());
}

#[test]
fn registering_state_again_replaces_it() {
    let mut store: StateStore<&str> = StateStore::new();
    store.insert(7, "first");
    store.insert(7, "second");
    assert_eq!(store.get(7), Some(&"second"));
    assert_eq!(State::new(5).inner(), &5);
}

#[test]
fn json_rejection_names_the_category() {
    let body = b"{\"a\": }".to_vec();
    let err = serde_json::from_slice::<serde_json::Value>(&body).unwrap_err();
    let response = JsonInterceptor.intercept(&body, &err);
    assert_eq!(response.status.as_u16(), 400);
    assert_eq!(
        response.headers,
        vec![("content-type".to_string(), "application/json".to_string())]
    );
    let text = String::from_utf8(response.body).unwrap();
    assert_eq!(
        text,
        "{\"column\":7,\"error_class\":\"SYNTAX\",\"line\":1,\"original_request\":\"{\\\"a\\\": }\"}"
    );
}

#[test]
fn json_rejection_for_truncated_and_mistyped_bodies() {
    let body = b"{\"a\": 1".to_vec();
    let err = serde_json::from_slice::<serde_json::Value>(&body).unwrap_err();
    let response = JsonInterceptor.intercept(&body, &err);
    assert_eq!(response.status.as_u16(), 400);
    assert!(String::from_utf8(response.body).unwrap().contains("\"error_class\":\"EOF\""));

    let body = b"\"seven\"".to_vec();
    let err = serde_json::from_slice::<u64>(&body).unwrap_err();
    let response = JsonInterceptor.intercept(&body, &err);
    assert_eq!(response.status.as_u16(), 400);
    assert!(String::from_utf8(response.body).unwrap().contains("\"error_class\":\"DATA\""));
}

#[test]
fn json_rejection_exact_body() {
    let response = condey::json::json_rejection(b"x\xff", JsonErrorClass::Data, 12, 305);
    assert_eq!(
        String::from_utf8(response.body).unwrap(),
        "{\"column\":305,\"error_class\":\"DATA\",\"line\":12,\"original_request\":\"x\u{fffd}\"}"
    );
    assert_eq!(condey::json::decimal_string(0), "0");
    assert_eq!(condey::json::decimal_string(1907), "1907");
}

#[test]
fn form_body_is_extracted() {
    let body = b"name=foo&qty=3";
    let pairs: Vec<(String, String)> = serde_urlencoded::from_bytes(body).unwrap();
    let form = Form::new(pairs).into_inner();
    assert_eq!(form[0], ("name".to_string(), "foo".to_string()));
    assert_eq!(u64::from_path_param(&form[1].1), Ok(3));
}

#[test]
fn wide_paths_are_extracted() {
    let p = params(&[("a", "1"), ("b", "2"), ("c", "x"), ("d", "-4"), ("e", "5")]);
    let Path((a, b, c, d, e)) = Path::<(u8, u16, String, i128, usize)>::from_params(&p).unwrap();
    assert_eq!((a, b, c.as_str(), d, e), (1, 2, "x", -4, 5));
    let ten = params(&[
        ("a", "0"), ("b", "1"), ("c", "2"), ("d", "3"), ("e", "4"),
        ("f", "5"), ("g", "6"), ("h", "7"), ("i", "8"), ("j", "9"),
    ]);
    let Path(t) =
        Path::<(u8, u8, u8, u8, u8, u8, u8, u8, u8, u64)>::from_params(&ten).unwrap();
    assert_eq!(t.9, 9);
    assert_eq!(t.0, 0);
    let r = Path::<(u8, u8, u8, u8, u8, u8, u8, u8, u8, u8)>::from_params(&p);
    assert!(matches!(r, Err(PathExtractError::InvalidParam(FromPathParamError::ParseError))));
    let r = Path::<(u8, u16, u8, i8)>::from_params(&params(&[("a", "1"), ("b", "2"), ("c", "3")]));
    assert!(matches!(r, Err(PathExtractError::ExhaustedPathIterator)));
}
