// Trait implementations written out by hand in the shape of forwarding
// impls: each type or trait below implements what its tests require.

use std::fmt::Debug;
use std::marker::PhantomData;
use std::ops::{Deref, DerefMut};

fn test_has_clone(_: impl Clone) {}
fn test_has_debug(_: impl Debug) {}

struct Wrapper<T>(pub T);

impl<T: Clone> Clone for Wrapper<T> {
    fn clone(&self) -> Self {
        Wrapper(self.0.clone())
    }
}

impl<T: Debug> Debug for Wrapper<T> {
    fn fmt(&self, f: &mut std::fmt::Formatter<'_>) -> std::fmt::Result {
        f.debug_tuple("Wrapper").field(&self.0).finish()
    }
}

#[test]
fn wrapper() {
    test_has_clone(Wrapper(0i32));
    test_has_debug(Wrapper(()));
}

struct X<A, B: Debug, C> {
    a: A,
    b: B,
    c: PhantomData<C>,
}

impl<A: Clone, B: Debug + Clone, C> Clone for X<A, B, C> {
    fn clone(&self) -> Self {
        X {
            a: self.a.clone(),
            b: self.b.clone(),
            c: PhantomData,
        }
    }
}

impl<A: Default, B: Debug + Default, C> Default for X<A, B, C> {
    fn default() -> Self {
        X {
            a: A::default(),
            b: B::default(),
            c: PhantomData,
        }
    }
}

impl<A: Debug, B: Debug, C> Debug for X<A, B, C> {
    fn fmt(&self, f: &mut std::fmt::Formatter<'_>) -> std::fmt::Result {
        f.debug_struct("X")
            .field("a", &self.a)
            .field("b", &self.b)
            .field("c", &self.c)
            .finish()
    }
}

#[test]
fn x() {
    let x = X {
        a: 1i8,
        b: "abc",
        c: PhantomData::<fn()>,
    };
    test_has_debug(x.clone());
}

struct Y<S, T> {
    _s: S,
    t: T,
}

impl<S, T> Deref for Y<S, T> {
    type Target = T;
    fn deref(&self) -> &T {
        &self.t
    }
}

impl<S, T> DerefMut for Y<S, T> {
    fn deref_mut(&mut self) -> &mut T {
        &mut self.t
    }
}

fn set_to_two(x: &mut i32) {
    *x = 2;
}

#[test]
fn y() {
    let mut y = Y { _s: (), t: 1i32 };
    set_to_two(y.deref_mut());
    assert_eq!(y.t, 2);
}

trait Z {
    const A: i32;

    fn f(&self);
    fn g(&mut self, a: i32, b: &Self::B);

    type B;
}

impl<'a, T: Z> Z for &'a mut T {
    const A: i32 = T::A;

    fn f(&self) {
        (**self).f()
    }
    fn g(&mut self, a: i32, b: &Self::B) {
        (**self).g(a, b)
    }

    type B = T::B;
}

impl<T: Z> Z for Box<T> {
    const A: i32 = T::A;

    fn f(&self) {
        (**self).f()
    }
    fn g(&mut self, a: i32, b: &Self::B) {
        (**self).g(a, b)
    }

    type B = T::B;
}

impl Z for () {
    const A: i32 = 10;

    fn f(&self) {}
    fn g(&mut self, _: i32, _: &i32) {}

    type B = i32;
}

fn impls_z(mut z: impl Z<B = i32>) {
    z.f();
    z.g(1, &2);
}

#[test]
fn z() {
    impls_z(());
    impls_z(&mut ());
    impls_z(Box::new(()));
}

trait G<V>
where
    V: Debug,
{
    fn g(&self) -> V;
}

impl<'a, V: Debug, T: G<V> + ?Sized> G<V> for &'a T {
    fn g(&self) -> V {
        (**self).g()
    }
}

impl<'a, V: Debug, T: G<V> + ?Sized> G<V> for &'a mut T {
    fn g(&self) -> V {
        (**self).g()
    }
}

impl<V: Debug, T: G<V> + ?Sized> G<V> for Box<T> {
    fn g(&self) -> V {
        (**self).g()
    }
}

struct S;

impl G<i32> for S {
    fn g(&self) -> i32 {
        123
    }
}

fn impls_g(g: impl G<i32>) {
    assert_eq!(g.g(), 123);
}

#[test]
fn g() {
    impls_g(S);
    impls_g(&S);
    impls_g(&&S);
    impls_g(&mut S);
    impls_g(&&mut S);
    impls_g(&S as &dyn G<i32>);
    impls_g(Box::new(S));
    impls_g(&mut &Box::new(S));
    impls_g(Box::new(S) as Box<dyn G<i32>>);
    impls_g(&mut (Box::new(S) as Box<dyn G<i32>>));
}
