use vstd::prelude::*;
use vstd::string::*;

verus! {

/// A user record with a name, an email address and an age.
pub struct User {
    pub name: String,
    pub email: String,
    pub age: u32,
}

/// The decimal digit for `d < 10`.
pub open spec fn digit_char(d: nat) -> char {
    if d == 0 {
        '0'
    } else if d == 1 {
        '1'
    } else if d == 2 {
        '2'
    } else if d == 3 {
        '3'
    } else if d == 4 {
        '4'
    } else if d == 5 {
        '5'
    } else if d == 6 {
        '6'
    } else if d == 7 {
        '7'
    } else if d == 8 {
        '8'
    } else {
        '9'
    }
}

/// `n` written in decimal, without leading zeros.
pub open spec fn decimal(n: nat) -> Seq<char>
    decreases n,
{
    if n < 10 {
        seq![digit_char(n)]
    } else {
        decimal(n / 10).push(digit_char(n % 10))
    }
}

/// `Name: <name>, Email: <email>, Age: <age>`.
pub open spec fn info_text(name: Seq<char>, email: Seq<char>, age: nat) -> Seq<char> {
    "Name: "@ + name + ", Email: "@ + email + ", Age: "@ + decimal(age)
}

fn digit_str(d: u32) -> (r: &'static str)
    requires
        d < 10,
    ensures
        r@ == seq![digit_char(d as nat)],
{
    let digits = "0123456789";
    proof {
        reveal_strlit("0123456789");
    }
    let r = digits.substring_char(d as usize, d as usize + 1);
    assert(r@ =~= seq![digit_char(d as nat)]);
    r
}

/// Appends the decimal digits of `n` to `s`.
fn push_decimal(s: &mut String, n: u32)
    ensures
        final(s)@ == old(s)@ + decimal(n as nat),
    decreases n,
{
    if n >= 10 {
        push_decimal(s, n / 10);
    }
    s.append(digit_str(n % 10));
    assert(s@ =~= old(s)@ + decimal(n as nat));
}

impl User {
    pub fn new(name: &str, email: &str, age: u32) -> (r: User)
        ensures
            r.name@ == name@,
            r.email@ == email@,
            r.age == age,
    {
        User { name: name.to_string(), email: email.to_string(), age }
    }

    /// The user's details on one line: `Name: <name>, Email: <email>, Age: <age>`.
    pub fn info(&self) -> (r: String)
        ensures
            r@ == info_text(self.name@, self.email@, self.age as nat),
    {
        let mut s = String::from_str("Name: ");
        s.append(self.name.as_str());
        s.append(", Email: ");
        s.append(self.email.as_str());
        s.append(", Age: ");
        push_decimal(&mut s, self.age);
        s
    }
}

} // verus!
