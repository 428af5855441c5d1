//! The demo application's `MyService` singleton.

use vstd::prelude::*;

verus! {

/// The JS-facing interface of the `MyService` singleton.
pub trait MyServiceSingleton {
    /// A greeting for `name`.
    fn hello(&mut self, name: String) -> String;

    /// The service version.
    fn version(&self) -> String;
}

/// The default `MyService`: greets by name and reports version 1.0.0.
pub struct DefaultMyService {
    version: String,
}

impl DefaultMyService {
    pub closed spec fn spec_version(&self) -> Seq<char> {
        self.version@
    }

    /// The service at version "1.0.0".
    pub fn new() -> (s: Self)
        ensures
            s.spec_version() == "1.0.0"@,
    {
        DefaultMyService { version: String::from_str("1.0.0") }
    }
}

impl MyServiceSingleton for DefaultMyService {
    /// "Hello, " followed by `name` and "!".
    fn hello(&mut self, name: String) -> (r: String)
        ensures
            r@ == "Hello, "@ + name@ + "!"@,
            final(self).spec_version() == old(self).spec_version(),
    {
        let mut s = String::from_str("Hello, ");
        s.append(name.as_str());
        s.append("!");
        s
    }

    /// The service version.
    fn version(&self) -> (r: String)
        ensures
            r@ == self.spec_version(),
    {
        self.version.clone()
    }
}

/// The singleton instance handed to the JS runtime.
pub fn create_my_service_singleton() -> (r: Box<dyn MyServiceSingleton>) {
    Box::new(DefaultMyService::new())
}

} // verus!
