//! A school grade record.

use vstd::prelude::*;

verus! {

/// One school year: level, teacher, class and a picture.
pub struct Grade {
    pub school_level: String,
    pub teacher: String,
    pub class: String,
    pub picture: String,
}

impl Grade {
    /// A one-line description of the grade record.
    pub fn describe(&self) -> (r: String)
        ensures
            r@ == "Grade: "@ + self.school_level@ + ", Teacher: "@ + self.teacher@ + ", Class: "@
                + self.class@ + ", Picture: "@ + self.picture@,
    {
        let mut s = String::new();
        s.append("Grade: ");
        s.append(self.school_level.as_str());
        s.append(", Teacher: ");
        s.append(self.teacher.as_str());
        s.append(", Class: ");
        s.append(self.class.as_str());
        s.append(", Picture: ");
        s.append(self.picture.as_str());
        assert(s@ =~= "Grade: "@ + self.school_level@ + ", Teacher: "@ + self.teacher@
            + ", Class: "@ + self.class@ + ", Picture: "@ + self.picture@);
        s
    }
}

} // verus!
