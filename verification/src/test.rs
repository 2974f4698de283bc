use vstd::prelude::*;

verus! {

/// A list of cases for table-driven checks: inputs and what each should give.
pub struct Tests<T> {
    pub cases: Vec<Test<T>>,
}

/// One case: an input text and the value it should give.
pub struct Test<T> {
    pub input: String,
    pub expect: T,
}

impl<T> Tests<T> {
    pub fn new() -> (res: Self)
        ensures
            res.cases@.len() == 0,
    {
        Tests { cases: Vec::new() }
    }

    /// Append a case made of the text and the expected value.
    pub fn add(&mut self, case: (&str, T))
        ensures
            final(self).cases@.len() == old(self).cases@.len() + 1,
            forall|i: int| 0 <= i < old(self).cases@.len() ==> final(self).cases@[i] == old(self).cases@[i],
            final(self).cases@.last().input@ == case.0@,
            final(self).cases@.last().expect == case.1,
    {
        let input = case.0.to_owned();
        self.cases.push(Test { input, expect: case.1 });
    }
}

} // verus!
