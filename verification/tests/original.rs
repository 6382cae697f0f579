// Plain-Rust exercises of reference handling and of a typed marker, kept
// beside the bridge's own scenarios.

#[derive(Debug)]
struct A {
    x: f64,
}

impl A {
    fn get_x(&mut self) -> &mut f64 {
        &mut self.x
    }
}

#[test]
pub fn test_ref() {
    let mut a = A { x: 1.0 };
    a.x = 2.0;
    println!("{:?}", a);
    *a.get_x() = 3.0;
    println!("{:?}", a);
}

pub struct Type<T> {
    marker: std::marker::PhantomData<T>,
}

impl<T> Type<T> {
    fn new() -> Type<T> {
        Type::<T> { marker: std::marker::PhantomData }
    }
}

#[test]
#[allow(unused_variables)]
pub fn test_fun3() {
    let t = Type::<i32>::new();
}
