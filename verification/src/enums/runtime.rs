//! Execution runtimes a function can be deployed on.

use vstd::prelude::*;

verus! {

/// Execution runtimes a function can be deployed on.
#[derive(Clone, Copy, Debug, PartialEq, Eq, Hash, Structural)]
pub enum Runtime {
    Node14_5,
    Node16_0,
    Node18_0,
    Node19_0,
    Node20_0,
    Node21_0,
    Php8_0,
    Php8_1,
    Php8_2,
    Php8_3,
    Python3_8,
    Python3_9,
    Python3_10,
    Python3_11,
    Python3_12,
    Ruby3_0,
    Ruby3_1,
    Ruby3_2,
    Ruby3_3,
    Go1_19,
    Go1_20,
    Go1_21,
    Go1_22,
    Dotnet3_1,
    Dotnet6_0,
    Dotnet7_0,
    Java8_0,
    Java11_0,
    Java17_0,
    Java18_0,
    Java21_0,
    Swift5_5,
    Swift5_8,
    Swift5_9,
    Kotlin1_6,
    Kotlin1_8,
    Kotlin1_9,
    Cpp17,
    Cpp20,
    Dart2_15,
    Dart2_16,
    Dart2_17,
    Dart2_18,
    Dart3_0,
    Dart3_1,
    Dart3_3,
    Deno1_21,
    Deno1_24,
    Deno1_35,
    Deno1_40,
    Bun1_0,
}

impl Runtime {
    /// The canonical wire string of each variant.
    pub open spec fn spec_str(&self) -> Seq<char> {
        match *self {
            Runtime::Node14_5 => "node-14.5"@,
            Runtime::Node16_0 => "node-16.0"@,
            Runtime::Node18_0 => "node-18.0"@,
            Runtime::Node19_0 => "node-19.0"@,
            Runtime::Node20_0 => "node-20.0"@,
            Runtime::Node21_0 => "node-21.0"@,
            Runtime::Php8_0 => "php-8.0"@,
            Runtime::Php8_1 => "php-8.1"@,
            Runtime::Php8_2 => "php-8.2"@,
            Runtime::Php8_3 => "php-8.3"@,
            Runtime::Python3_8 => "python-3.8"@,
            Runtime::Python3_9 => "python-3.9"@,
            Runtime::Python3_10 => "python-3.10"@,
            Runtime::Python3_11 => "python-3.11"@,
            Runtime::Python3_12 => "python-3.12"@,
            Runtime::Ruby3_0 => "ruby-3.0"@,
            Runtime::Ruby3_1 => "ruby-3.1"@,
            Runtime::Ruby3_2 => "ruby-3.2"@,
            Runtime::Ruby3_3 => "ruby-3.3"@,
            Runtime::Go1_19 => "go-1.19"@,
            Runtime::Go1_20 => "go-1.20"@,
            Runtime::Go1_21 => "go-1.21"@,
            Runtime::Go1_22 => "go-1.22"@,
            Runtime::Dotnet3_1 => "dotnet-3.1"@,
            Runtime::Dotnet6_0 => "dotnet-6.0"@,
            Runtime::Dotnet7_0 => "dotnet-7.0"@,
            Runtime::Java8_0 => "java-8.0"@,
            Runtime::Java11_0 => "java-11.0"@,
            Runtime::Java17_0 => "java-17.0"@,
            Runtime::Java18_0 => "java-18.0"@,
            Runtime::Java21_0 => "java-21.0"@,
            Runtime::Swift5_5 => "swift-5.5"@,
            Runtime::Swift5_8 => "swift-5.8"@,
            Runtime::Swift5_9 => "swift-5.9"@,
            Runtime::Kotlin1_6 => "kotlin-1.6"@,
            Runtime::Kotlin1_8 => "kotlin-1.8"@,
            Runtime::Kotlin1_9 => "kotlin-1.9"@,
            Runtime::Cpp17 => "cpp-17"@,
            Runtime::Cpp20 => "cpp-20"@,
            Runtime::Dart2_15 => "dart-2.15"@,
            Runtime::Dart2_16 => "dart-2.16"@,
            Runtime::Dart2_17 => "dart-2.17"@,
            Runtime::Dart2_18 => "dart-2.18"@,
            Runtime::Dart3_0 => "dart-3.0"@,
            Runtime::Dart3_1 => "dart-3.1"@,
            Runtime::Dart3_3 => "dart-3.3"@,
            Runtime::Deno1_21 => "deno-1.21"@,
            Runtime::Deno1_24 => "deno-1.24"@,
            Runtime::Deno1_35 => "deno-1.35"@,
            Runtime::Deno1_40 => "deno-1.40"@,
            Runtime::Bun1_0 => "bun-1.0"@,
        }
    }

    /// The canonical wire string sent to the server.
    pub fn as_ref(&self) -> (r: &'static str)
        ensures
            r@ == self.spec_str(),
    {
        match *self {
            Runtime::Node14_5 => "node-14.5",
            Runtime::Node16_0 => "node-16.0",
            Runtime::Node18_0 => "node-18.0",
            Runtime::Node19_0 => "node-19.0",
            Runtime::Node20_0 => "node-20.0",
            Runtime::Node21_0 => "node-21.0",
            Runtime::Php8_0 => "php-8.0",
            Runtime::Php8_1 => "php-8.1",
            Runtime::Php8_2 => "php-8.2",
            Runtime::Php8_3 => "php-8.3",
            Runtime::Python3_8 => "python-3.8",
            Runtime::Python3_9 => "python-3.9",
            Runtime::Python3_10 => "python-3.10",
            Runtime::Python3_11 => "python-3.11",
            Runtime::Python3_12 => "python-3.12",
            Runtime::Ruby3_0 => "ruby-3.0",
            Runtime::Ruby3_1 => "ruby-3.1",
            Runtime::Ruby3_2 => "ruby-3.2",
            Runtime::Ruby3_3 => "ruby-3.3",
            Runtime::Go1_19 => "go-1.19",
            Runtime::Go1_20 => "go-1.20",
            Runtime::Go1_21 => "go-1.21",
            Runtime::Go1_22 => "go-1.22",
            Runtime::Dotnet3_1 => "dotnet-3.1",
            Runtime::Dotnet6_0 => "dotnet-6.0",
            Runtime::Dotnet7_0 => "dotnet-7.0",
            Runtime::Java8_0 => "java-8.0",
            Runtime::Java11_0 => "java-11.0",
            Runtime::Java17_0 => "java-17.0",
            Runtime::Java18_0 => "java-18.0",
            Runtime::Java21_0 => "java-21.0",
            Runtime::Swift5_5 => "swift-5.5",
            Runtime::Swift5_8 => "swift-5.8",
            Runtime::Swift5_9 => "swift-5.9",
            Runtime::Kotlin1_6 => "kotlin-1.6",
            Runtime::Kotlin1_8 => "kotlin-1.8",
            Runtime::Kotlin1_9 => "kotlin-1.9",
            Runtime::Cpp17 => "cpp-17",
            Runtime::Cpp20 => "cpp-20",
            Runtime::Dart2_15 => "dart-2.15",
            Runtime::Dart2_16 => "dart-2.16",
            Runtime::Dart2_17 => "dart-2.17",
            Runtime::Dart2_18 => "dart-2.18",
            Runtime::Dart3_0 => "dart-3.0",
            Runtime::Dart3_1 => "dart-3.1",
            Runtime::Dart3_3 => "dart-3.3",
            Runtime::Deno1_21 => "deno-1.21",
            Runtime::Deno1_24 => "deno-1.24",
            Runtime::Deno1_35 => "deno-1.35",
            Runtime::Deno1_40 => "deno-1.40",
            Runtime::Bun1_0 => "bun-1.0",
        }
    }
}

} // verus!
