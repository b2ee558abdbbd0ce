use rust_notes::cases::actix_web_route::{
    split_commas, Data0, Data2, Data3, FromSomething, Route, Service,
};

fn do_work1(d0: Data0) -> std::io::Result<i32> {
    println!("do_work1: d0:{:?}", d0);
    Ok(0)
}

fn do_work2(d0: Data0, d1: Data3, d2: Data2, s: String) -> std::io::Result<i32> {
    println!("do_work2: d0:{:?},d1:{:?},d2:{:?},s:{}", d0, d1, d2, s);
    Ok(0)
}

#[test]
fn test_actix_web_route_test() {
    let v = Route::new(do_work1);
    v.inner.call("1,2,3,4").unwrap();
    let v = Route::new(do_work2);
    v.inner.call("aaa,bbb,ccc,ddd").unwrap();
}

#[test]
fn split_commas_cuts_at_every_comma() {
    assert_eq!(split_commas("1,2,3,4"), vec!["1", "2", "3", "4"]);
    assert_eq!(split_commas("a,,b"), vec!["a", "", "b"]);
    assert_eq!(split_commas("abc,"), vec!["abc", ""]);
    assert_eq!(split_commas(",abc"), vec!["", "abc"]);
    assert_eq!(split_commas(""), vec![""]);
    assert_eq!(split_commas("no commas"), vec!["no commas"]);
    assert_eq!(split_commas("é,ü,日本"), vec!["é", "ü", "日本"]);
}

#[test]
fn tuple_arguments_take_pieces_in_order() {
    let (d0, d3, d2, s) = <(Data0, Data3, Data2, String)>::from_sth("aaa,bbb,ccc,ddd");
    assert_eq!(d0.0, "aaa");
    assert_eq!(d3.0, "bbb");
    assert_eq!(d2.0, "ccc");
    assert_eq!(s, "ddd");
    let (first,) = <(Data0,)>::from_sth("1,2,3,4");
    assert_eq!(first, Data0(String::from("1")));
}

#[test]
fn single_arguments_take_the_whole_request() {
    assert_eq!(Data0::from_sth("a,b").0, "a,b");
    assert_eq!(String::from_sth("x"), "x");
    let () = <()>::from_sth("anything");
}

#[test]
fn handler_receives_built_arguments() {
    let v = Route::new(|a: Data0, b: String| -> std::io::Result<i32> {
        assert_eq!(a.0, "left");
        assert_eq!(b, "right");
        Ok(7)
    });
    assert_eq!(v.inner.call("left,right,extra").unwrap(), 7);
    let v = Route::new(|| -> std::io::Result<i32> { Ok(3) });
    assert_eq!(v.inner.call("").unwrap(), 3);
}
