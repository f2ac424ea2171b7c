use mockgen::ir::GenErr;
use mockgen::mock::do_mock;

/// Compares generated source with the desired source, letting proc_macro2
/// reformat the whitespace on both sides.
fn check(desired: &str, code: &str) {
    let out = do_mock(code).unwrap();
    let output = out.parse::<proc_macro2::TokenStream>().unwrap().to_string();
    let expected = desired.parse::<proc_macro2::TokenStream>().unwrap().to_string();
    assert_eq!(expected, output);
}

/// Mocking a struct with a generic method
#[test]
fn generic_method() {
    let desired = r#"
        #[derive(Default)]
        struct MockSomeStruct {
            foo: ::mockall::GenericExpectations,
        }
        impl MockSomeStruct {
            pub fn foo<T: 'static>(&self, t: T) {
                self.foo.call:: <(T), ()>((t))
            }
            pub fn expect_foo<T: 'static>(&mut self)
                -> &mut ::mockall::Expectation<(T), ()>
            {
                self.foo.expect:: <(T), ()>()
            }
        }
    "#;
    let code = r#"
        SomeStruct {
            fn foo<T: 'static>(&self, t: T);
        }"#;
    check(desired, code);
}

/// Mocking a generic struct that's defined in another crate
#[test]
fn generic_struct() {
    let desired = r#"
        #[derive(Default)]
        struct MockExternalStruct<T: Clone> {
            foo: ::mockall::Expectations<(u32), i64> ,
            _t0: ::std::marker::PhantomData<T> ,
        }
        impl<T: Clone> MockExternalStruct<T> {
            pub fn foo(&self, x: u32) -> i64 {
                self.foo.call((x))
            }
            pub fn expect_foo(&mut self)
                -> &mut ::mockall::Expectation<(u32), i64>
            {
                self.foo.expect()
            }
        }
    "#;
    let code = r#"
        ExternalStruct<T: Clone> {
            fn foo(&self, x: u32) -> i64;
        }
    "#;
    check(desired, code);
}

/// Mocking a generic struct that's defined in another crate and has a trait
/// impl
#[test]
fn generic_struct_with_trait() {
    let desired = r#"
        #[derive(Default)]
        struct MockExternalStruct<T: Copy + 'static> {
            Foo_expectations: MockExternalStruct_Foo,
            _t0: ::std::marker::PhantomData<T> ,
        }
        #[derive(Default)]
        struct MockExternalStruct_Foo {
            foo: ::mockall::Expectations<(u32), u32> ,
        }
        impl<T: Copy + 'static> MockExternalStruct<T> {}
        impl<T: Copy + 'static> Foo for MockExternalStruct<T> {
            fn foo(&self, x: u32) -> u32 {
                self.Foo_expectations.foo.call((x))
            }
        }
        impl<T: Copy + 'static> MockExternalStruct<T> {
            pub fn expect_foo(&mut self)
                -> &mut ::mockall::Expectation<(u32), u32>
            {
                self.Foo_expectations.foo.expect()
            }
        }
    "#;
    let code = r#"
        ExternalStruct<T: Copy + 'static> {}
        trait Foo {
            fn foo(&self, x: u32) -> u32;
        }
    "#;
    check(desired, code);
}

/// Implement a generic trait on a generic struct
#[test]
fn generic_struct_with_generic_trait() {
    let desired = r#"
        #[derive(Default)]
        struct MockExternalStruct<T: 'static, Z: 'static> {
            Foo_expectations: MockExternalStruct_Foo<T> ,
            _t0: ::std::marker::PhantomData<T> ,
            _t1: ::std::marker::PhantomData<Z> ,
        }
        #[derive(Default)]
        struct MockExternalStruct_Foo<T: 'static> {
            foo: ::mockall::Expectations<(T), T> ,
            _t0: ::std::marker::PhantomData<T> ,
        }
        impl<T: 'static, Z: 'static> MockExternalStruct<T, Z> {}
        impl<T: 'static, Z: 'static> Foo<T> for MockExternalStruct<T, Z> {
            fn foo(&self, x: T) -> T {
                self.Foo_expectations.foo.call((x))
            }
        }
        impl<T: 'static, Z: 'static> MockExternalStruct<T, Z> {
            pub fn expect_foo(&mut self)
                -> &mut ::mockall::Expectation<(T), T>
            {
                self.Foo_expectations.foo.expect()
            }
        }
    "#;
    let code = r#"
        ExternalStruct<T: 'static, Z: 'static> {}
        trait Foo<T: 'static> {
            fn foo(&self, x: T) -> T;
        }
    "#;
    check(desired, code);
}

#[test]
fn generic_trait() {
    let desired = r#"#[derive(Default)]
    struct MockExternalStruct<T> {
        GenericTrait_expectations: MockExternalStruct_GenericTrait<T> ,
        _t0: ::std::marker::PhantomData<T> ,
    }
    #[derive(Default)]
    struct MockExternalStruct_GenericTrait<T> {
        foo: ::mockall::Expectations<(), ()> ,
        _t0: ::std::marker::PhantomData<T> ,
    }
    impl<T> MockExternalStruct<T> {}
    impl<T> GenericTrait<T> for MockExternalStruct<T> {
        fn foo(&self) {
            self.GenericTrait_expectations.foo.call(())
        }
    }
    impl<T> MockExternalStruct<T> {
        pub fn expect_foo(&mut self) -> &mut ::mockall::Expectation<(), ()>
        {
            self.GenericTrait_expectations.foo.expect()
        }
    }"#;
    let code = r#"
    ExternalStruct<T> {}
    trait GenericTrait<T> {
        fn foo(&self);
    }"#;
    check(desired, code);
}

#[test]
fn inherited_trait() {
    let desired = r#"
    #[derive(Default)]
    struct MockExternalStruct {
        A_expectations: MockExternalStruct_A,
        B_expectations: MockExternalStruct_B,
    }
    #[derive(Default)]
    struct MockExternalStruct_A {
        foo: ::mockall::Expectations<(), ()> ,
    }
    #[derive(Default)]
    struct MockExternalStruct_B {
        bar: ::mockall::Expectations<(), ()> ,
    }
    impl MockExternalStruct {}
    impl A for MockExternalStruct {
        fn foo(&self) {
            self.A_expectations.foo.call(())
        }
    }
    impl MockExternalStruct {
        pub fn expect_foo(&mut self) -> &mut ::mockall::Expectation<(), ()>
        {
            self.A_expectations.foo.expect()
        }
    }
    impl B for MockExternalStruct {
        fn bar(&self) {
            self.B_expectations.bar.call(())
        }
    }
    impl MockExternalStruct {
        pub fn expect_bar(&mut self) -> &mut ::mockall::Expectation<(), ()>
        {
            self.B_expectations.bar.expect()
        }
    }"#;
    let code = r#"
        ExternalStruct {}
        trait A {
            fn foo(&self);
        }
        trait B {
            fn bar(&self);
        }
    "#;
    check(desired, code);
}

#[test]
fn reference_arguments() {
    let desired = r#"
    #[derive(Default)]
    struct MockFoo< 'a> {
        foo: ::mockall::Expectations<(& 'a u32), ()> ,
        _t0: ::std::marker::PhantomData< & 'a ()> ,
    }
    impl< 'a> MockFoo< 'a> {
        pub fn foo(&self, x: & 'a u32) {
            self.foo.call((x))
        }
        pub fn expect_foo(&mut self)
            -> &mut ::mockall::Expectation<(& 'a u32), ()>
        {
            self.foo.expect()
        }
    }"#;

    let code = r#"
        Foo<'a> {
            fn foo(&self, x: & 'a u32);
        }
    "#;
    check(desired, code);
}

#[test]
fn reference_return() {
    let desired = r#"
    #[derive(Default)]
    struct MockFoo {
        foo: ::mockall::RefExpectations<(), u32> ,
    }
    impl MockFoo {
        pub fn foo(&self) -> &u32 {
            self.foo.call(())
        }
        pub fn expect_foo(&mut self)
            -> &mut ::mockall::RefExpectation<(), u32>
        {
            self.foo.expect()
        }
    }"#;

    let code = r#"
        Foo {
            fn foo(&self) -> &u32;
        }
    "#;
    check(desired, code);
}

#[test]
fn reference_return_from_trait() {
    let desired = r#"
    #[derive(Default)]
    struct MockX {
        Foo_expectations: MockX_Foo ,
    }
    #[derive(Default)]
    struct MockX_Foo {
        foo: ::mockall::RefExpectations<(), u32> ,
    }
    impl MockX {}
    impl Foo for MockX {
        fn foo(&self) -> &u32 {
            self.Foo_expectations.foo.call(())
        }
    }
    impl MockX {
        pub fn expect_foo(&mut self)
            -> &mut ::mockall::RefExpectation<(), u32>
        {
            self.Foo_expectations.foo.expect()
        }
    }"#;

    let code = r#"
        X {}
        trait Foo {
            fn foo(&self) -> &u32;
        }
    "#;
    check(desired, code);
}

#[test]
fn ref_mut_return() {
    let desired = r#"
    #[derive(Default)]
    struct MockFoo {
        foo: ::mockall::RefMutExpectations<(), u32> ,
    }
    impl MockFoo {
        pub fn foo(&mut self) -> &mut u32 {
            self.foo.call_mut(())
        }
        pub fn expect_foo(&mut self)
            -> &mut ::mockall::RefMutExpectation<(), u32>
        {
            self.foo.expect()
        }
    }"#;

    let code = r#"
        Foo {
            fn foo(&mut self) -> &mut u32;
        }
    "#;
    check(desired, code);
}

#[test]
fn static_method() {
    let desired = r#"
        #[derive(Default)]
        struct MockFoo {
        }
        ::mockall::lazy_static!{
            static ref MockFoo_bar_expectation: ::std::sync::Mutex< ::mockall::Expectations<(u32), u64> >
            = ::std::sync::Mutex::new(::mockall::Expectations::new());
        }
        impl MockFoo {
            pub fn bar(x: u32) -> u64 {
                MockFoo_bar_expectation.lock().unwrap().call((x))
            }
            pub fn expect_bar< 'guard>()
                -> ::mockall::ExpectationGuard< 'guard, (u32), u64>
            {
                ::mockall::ExpectationGuard::new(
                    MockFoo_bar_expectation.lock().unwrap()
                )
            }
        }
    "#;
    let code = r#"
        Foo {
            fn bar(x: u32) -> u64;
        }
    "#;
    check(desired, code);
}

/// Mocking a struct that's defined in another crate
#[test]
fn struct_() {
    let desired = r#"
        #[derive(Default)]
        struct MockExternalStruct {
            foo: ::mockall::Expectations<(u32), i64> ,
        }
        impl MockExternalStruct {
            pub fn foo(&self, x: u32) -> i64 {
                self.foo.call((x))
            }
            pub fn expect_foo(&mut self)
                -> &mut ::mockall::Expectation<(u32), i64>
            {
                self.foo.expect()
            }
        }
    "#;
    let code = r#"
        ExternalStruct {
            fn foo(&self, x: u32) -> i64;
        }
    "#;
    check(desired, code);
}

/// Mocking a struct that's defined in another crate, and has a trait
/// implementation
#[test]
fn struct_with_trait() {
    let desired = r#"
        #[derive(Default)]
        struct MockExternalStruct {
            Foo_expectations: MockExternalStruct_Foo,
        }
        #[derive(Default)]
        struct MockExternalStruct_Foo {
            foo: ::mockall::Expectations<(u32), i64> ,
        }
        impl MockExternalStruct { }
        impl Foo for MockExternalStruct {
            fn foo(&self, x: u32) -> i64 {
                self.Foo_expectations.foo.call((x))
            }
        }
        impl MockExternalStruct {
            pub fn expect_foo(&mut self)
                -> &mut ::mockall::Expectation<(u32), i64>
            {
                self.Foo_expectations.foo.expect()
            }
        }
    "#;
    let code = r#"
        ExternalStruct {}
        trait Foo {
            fn foo(&self, x: u32) -> i64;
        }
    "#;
    check(desired, code);
}

/// Mocking a struct that's defined in another crate, and has a trait
/// implementation that includes an associated type
#[test]
fn struct_with_trait_with_associated_types() {
    let desired = r#"
        #[derive(Default)]
        struct MockMyIter {
            Iterator_expectations: MockMyIter_Iterator,
        }
        #[derive(Default)]
        struct MockMyIter_Iterator {
            next: ::mockall::Expectations<(), Option<u32> > ,
        }
        impl MockMyIter { }
        impl Iterator for MockMyIter {
            type Item=u32;
            fn next(&mut self) -> Option<u32> {
                self.Iterator_expectations.next.call(())
            }
        }
        impl MockMyIter {
            pub fn expect_next(&mut self)
                -> &mut ::mockall::Expectation<(), Option<u32> >
            {
                self.Iterator_expectations.next.expect()
            }
        }
    "#;
    let code = r#"
        MyIter {}
        trait Iterator {
            type Item=u32;

            fn next(&mut self) -> Option<u32>;
        }
    "#;
    check(desired, code);
}

/// Re-running generation on an unchanged specification yields
/// byte-identical output.
#[test]
fn idempotent_output() {
    let code = r#"
        ExternalStruct<T: Clone> {
            fn foo(&self, x: u32) -> i64;
        }
        trait Foo {
            fn bar(&self) -> &u32;
        }
    "#;
    let first = do_mock(code).unwrap();
    let second = do_mock(code).unwrap();
    assert_eq!(first, second);
}

/// A returned reference with an explicit non-static lifetime is rejected
/// with the unsupported-lifetime diagnostic and produces no output.
#[test]
fn nonstatic_return_lifetime_rejected() {
    let code = r#"
        Foo<'a> {
            fn foo(&self) -> & 'a u32;
        }
    "#;
    let r = do_mock(code);
    assert!(matches!(r, Err(GenErr::NonStaticLifetime)));
}

/// A returned reference with an explicit static lifetime is accepted and
/// stored as reference-returning.
#[test]
fn static_return_lifetime_accepted() {
    let desired = r#"
        #[derive(Default)]
        struct MockFoo {
            foo: ::mockall::RefExpectations<(), u32> ,
        }
        impl MockFoo {
            pub fn foo(&self) -> & 'static u32 {
                self.foo.call(())
            }
            pub fn expect_foo(&mut self)
                -> &mut ::mockall::RefExpectation<(), u32>
            {
                self.foo.expect()
            }
        }
    "#;
    let code = r#"
        Foo {
            fn foo(&self) -> & 'static u32;
        }
    "#;
    check(desired, code);
}

/// A const generic parameter is rejected.
#[test]
fn const_generic_rejected() {
    let code = r#"
        Foo<const N: usize> {}
    "#;
    let r = do_mock(code);
    assert!(matches!(r, Err(GenErr::ConstGenericParam)));
}

/// A bound on a declared lifetime parameter is rejected.
#[test]
fn lifetime_bound_rejected() {
    let code = r#"
        Foo<'a: 'b> {}
    "#;
    let r = do_mock(code);
    assert!(matches!(r, Err(GenErr::LifetimeBound)));
}

/// A generic associated type is rejected.
#[test]
fn generic_associated_type_rejected() {
    let code = r#"
        Foo {}
        trait Bar {
            type Item<Z> = u32;
        }
    "#;
    let r = do_mock(code);
    assert!(matches!(r, Err(GenErr::GenericAssociatedType)));
}

/// An associated type without a concrete binding is rejected.
#[test]
fn missing_concrete_binding_rejected() {
    let code = r#"
        Foo {}
        trait Bar {
            type Item;
        }
    "#;
    let r = do_mock(code);
    assert!(matches!(r, Err(GenErr::MissingConcreteBinding)));
}

/// A non-method item inside the free-method block is rejected.
#[test]
fn item_in_free_block_rejected() {
    let code = r#"
        Foo {
            type Item = u32;
        }
    "#;
    let r = do_mock(code);
    assert!(matches!(r, Err(GenErr::UnsupportedItem)));
}

/// Malformed specification text fails to parse.
#[test]
fn malformed_input_rejected() {
    let r = do_mock("Foo {");
    assert!(matches!(r, Err(GenErr::Parse)));
    let r2 = do_mock("{}");
    assert!(matches!(r2, Err(GenErr::Parse)));
}

/// An associated constant declared by a trait is silently skipped.
#[test]
fn associated_const_skipped() {
    let desired = r#"
        #[derive(Default)]
        struct MockFoo {
            Bar_expectations: MockFoo_Bar,
        }
        #[derive(Default)]
        struct MockFoo_Bar {
            baz: ::mockall::Expectations<(), ()> ,
        }
        impl MockFoo {}
        impl Bar for MockFoo {
            fn baz(&self) {
                self.Bar_expectations.baz.call(())
            }
        }
        impl MockFoo {
            pub fn expect_baz(&mut self) -> &mut ::mockall::Expectation<(), ()>
            {
                self.Bar_expectations.baz.expect()
            }
        }
    "#;
    let code = r#"
        Foo {}
        trait Bar {
            const X: u32 = 3;
            fn baz(&self);
        }
    "#;
    check(desired, code);
}

/// An empty specification still yields a constructible mock structure and
/// an (empty) inherent implementation block.
#[test]
fn empty_struct() {
    let desired = r#"
        #[derive(Default)]
        struct MockFoo {
        }
        impl MockFoo {
        }
    "#;
    check(desired, "Foo {}");
}

/// A method with several parameters keeps them in declaration order in the
/// input tuple and in the forwarding call.
#[test]
fn two_parameters() {
    let desired = r#"
        #[derive(Default)]
        struct MockFoo {
            combine: ::mockall::Expectations<(u32, u32), u32> ,
        }
        impl MockFoo {
            pub fn combine(&self, x: u32, y: u32) -> u32 {
                self.combine.call((x, y))
            }
            pub fn expect_combine(&mut self)
                -> &mut ::mockall::Expectation<(u32, u32), u32>
            {
                self.combine.expect()
            }
        }
    "#;
    let code = r#"
        Foo {
            fn combine(&self, x: u32, y: u32) -> u32;
        }
    "#;
    check(desired, code);
}

/// A static method declared inside a trait stores its expectations in
/// process-wide storage qualified by owner, trait and method name.
#[test]
fn static_trait_method() {
    let desired = r#"
        #[derive(Default)]
        struct MockFoo {
            B_expectations: MockFoo_B,
        }
        #[derive(Default)]
        struct MockFoo_B {
        }
        ::mockall::lazy_static!{
            static ref MockFoo_B_sm_expectation: ::std::sync::Mutex< ::mockall::Expectations<(u32), u64> >
            = ::std::sync::Mutex::new(::mockall::Expectations::new());
        }
        impl MockFoo {}
        impl B for MockFoo {
            fn sm(x: u32) -> u64 {
                MockFoo_B_sm_expectation.lock().unwrap().call((x))
            }
        }
        impl MockFoo {
            pub fn expect_sm< 'guard>()
                -> ::mockall::ExpectationGuard< 'guard, (u32), u64>
            {
                ::mockall::ExpectationGuard::new(
                    MockFoo_B_sm_expectation.lock().unwrap()
                )
            }
        }
    "#;
    let code = r#"
        Foo {}
        trait B {
            fn sm(x: u32) -> u64;
        }
    "#;
    check(desired, code);
}

/// A by-value receiver is an instance method like any other.
#[test]
fn by_value_receiver() {
    let desired = r#"
        #[derive(Default)]
        struct MockFoo {
            consume: ::mockall::Expectations<(), u32> ,
        }
        impl MockFoo {
            pub fn consume(self) -> u32 {
                self.consume.call(())
            }
            pub fn expect_consume(&mut self)
                -> &mut ::mockall::Expectation<(), u32>
            {
                self.consume.expect()
            }
        }
    "#;
    let code = r#"
        Foo {
            fn consume(self) -> u32;
        }
    "#;
    check(desired, code);
}

/// A receiver with its own lifetime is kept verbatim in the forwarding
/// signature.
#[test]
fn receiver_lifetime() {
    let desired = r#"
        #[derive(Default)]
        struct MockFoo< 'a> {
            get: ::mockall::Expectations<(), u32> ,
            _t0: ::std::marker::PhantomData< & 'a ()> ,
        }
        impl< 'a> MockFoo< 'a> {
            pub fn get(& 'a self) -> u32 {
                self.get.call(())
            }
            pub fn expect_get(&mut self)
                -> &mut ::mockall::Expectation<(), u32>
            {
                self.get.expect()
            }
        }
    "#;
    let code = r#"
        Foo<'a> {
            fn get(& 'a self) -> u32;
        }
    "#;
    check(desired, code);
}

/// A `self` token inside a declared parameter pattern is malformed.
#[test]
fn self_in_pattern_rejected() {
    let code = r#"
        Foo {
            fn f(x: u32, self: u32);
        }
    "#;
    let r = do_mock(code);
    assert!(matches!(r, Err(GenErr::Parse)));
}
