use std::cell::Cell;

use rust_notes::assign::{test_assign, test_ptr_assign};
use rust_notes::box_example::NoCopyFoo;
use rust_notes::cases::assign::example;
use rust_notes::closure::Foo;
use rust_notes::doc::{example_func2, example_func4};
use rust_notes::enum_example::Wrapper;
use rust_notes::fill_default::Example;
use rust_notes::fn_shadow::wtf;
use rust_notes::gat::WindowsMut;
use rust_notes::memory::cell::{CustomCell, Goods};

#[test]
fn assign_test() {
    let a = test_assign();
    let b = test_ptr_assign();
    assert_eq!(a.name, "test_assign.y");
    assert_eq!(b.name, "test_ptr_assign.y");
    assert_eq!(a.x, 1);
    assert_eq!(b.y, [0i64; 16]);
    example();
}

#[test]
fn test_fill_default() {
    let example = Example {
        p0: -200,
        ..Default::default()
    };
    println!("{:?}", &example);
    assert_eq!(example.p0, -200);
    assert_eq!(example.p1, 100);
    assert_eq!(example.p2, String::from("nice try"));
    assert_eq!(example.p3, Some(200));
}

#[test]
fn default_example_fields() {
    let e = Example::default();
    assert_eq!((e.p0, e.p1, e.p2.as_str(), e.p3), (-1, 100, "nice try", Some(200)));
}

#[test]
fn fn_shadow_test() {
    assert_eq!(wtf(), 2);
    {
        assert_eq!(wtf(), ());
        fn wtf() {
            println!("inner")
        }
    }
    fn wtf() -> u8 {
        2
    }
}

#[test]
fn module_wtf_is_one() {
    assert_eq!(rust_notes::fn_shadow::wtf(), 1);
}

#[test]
fn gat_test() {
    let mut v: [i32; 8] = Default::default();
    let mut wm = WindowsMut {
        slice: &mut v,
        start: 0,
        window_size: 2,
    };
    let m = wm.next();
    m.map(|v| {
        for x in v {
            println!("{}", x)
        }
    });
    let m = wm.next();
}

#[test]
fn windows_step_by_one_and_stop_at_the_end() {
    let mut v = [1, 2, 3, 4];
    let mut wm = WindowsMut { slice: &mut v, start: 1, window_size: 2 };
    assert_eq!(wm.next().map(|w| w.to_vec()), Some(vec![2, 3]));
    assert_eq!(wm.start, 2);
    if let Some(w) = wm.next() {
        w[0] = 30;
        w[1] = 40;
    }
    assert_eq!(wm.start, 3);
    assert!(wm.next().is_none());
    assert_eq!(wm.start, 3);
    assert_eq!(v, [1, 2, 30, 40]);
}

#[test]
fn test_box() {
    let mut b = Box::new(11);
    *b = 222;
    *b = 333;
    assert_eq!(*b, 333);
    let cell = Cell::new(233);
    cell.set(555);
    assert_eq!(cell.get(), 555);
    let mut cell2 = Cell::new(NoCopyFoo { x: 1, y: 2 });
    let c3 = &*cell2.get_mut();
    assert_eq!((c3.x, c3.y), (1, 2));
}

#[test]
fn test_fn_once() {
    let k = Foo(100, 200);
    let g = || k.wtf_once();
    println!("call 1:{}", g());
}

#[test]
fn test_fn_mut() {
    let mut k = Foo(100, 200);
    let mut g = || {
        let x = &mut k;
        x.wtf_mut()
    };
    println!("call 1:{}", g());
    println!("call 2:{}", g());
    println!("call 3:{}", g());
}

#[test]
fn test_fn() {
    let k = Foo(10, 20);
    let g = || k.wtf_fn();
    println!("call 1:{}", g());
    println!("call 2:{}", g());
    println!("call 3:{}", g());
}

#[test]
fn closure_methods_add_the_counters() {
    let mut k = Foo(100, 200);
    assert_eq!(k.wtf_fn(), 300);
    assert_eq!(k.wtf_mut(), 500);
    assert_eq!(k.wtf_mut(), 700);
    assert_eq!((k.0, k.1), (300, 400));
    assert_eq!(k.wtf_once(), 700);
}

#[test]
fn test_enum() {
    let x = &1;
    let wref = &mut Wrapper::Value(x);
    if let Wrapper::Value(v) = wref {
        println!("vv:{}", *v)
    }
    wref.clear();
    assert_eq!(*wref, Wrapper::Empty);
}

#[test]
fn clear_on_empty_stays_empty() {
    let mut w: Wrapper<String> = Wrapper::Empty;
    w.clear();
    assert_eq!(w, Wrapper::Empty);
}

#[test]
fn test_mut_borrow() {
    let mut kk = CustomCell::new(Goods(0));
    let a1 = kk.get_mut();
    (*a1).0 = 300;
    let a2 = kk.get_mut();
    (*a2).0 = 200;
}

#[test]
fn test_cell() {
    let mut c = Cell::new(Goods(0));
    let c1 = c.get_mut();
    (*c1).0 = 200;
    let c2 = c.get_mut();
    (*c2).0 = 200;
}

#[test]
fn custom_cell_keeps_the_last_write() {
    let mut kk = CustomCell::new(Goods(0));
    kk.get_mut().0 = 300;
    assert_eq!(kk.get_mut().0, 300);
    kk.get_mut().0 = 200;
    assert_eq!(kk.get_mut().0, 200);
}

#[test]
fn doc_examples_do_nothing() {
    example_func2();
    example_func4();
}
