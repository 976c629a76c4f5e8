//! The decoded timetable: a school holds grades, a grade classes, a class
//! days, a day periods. Every level is numbered from zero by position; the
//! lookups by number count from one.

use vstd::prelude::*;
use vstd::string::StringExecFns;
use crate::text::{decimal, push_decimal};

verus! {

/// One period of a day, as mathematical values.
pub struct PeriodView {
    pub number: int,
    pub subject: Seq<char>,
    pub teacher: Seq<char>,
}

/// One day of a class, as mathematical values.
pub struct DayView {
    pub number: int,
    pub periods: Seq<PeriodView>,
}

/// One class of a grade, as mathematical values.
pub struct ClassView {
    pub number: int,
    pub days: Seq<DayView>,
}

/// One grade of a school, as mathematical values.
pub struct GradeView {
    pub number: int,
    pub classes: Seq<ClassView>,
}

/// A school's timetable, as mathematical values.
pub struct SchoolView {
    pub name: Seq<char>,
    pub grades: Seq<GradeView>,
}

impl DayView {
    /// Every period carries its position as its number.
    pub open spec fn numbered(self) -> bool {
        forall|p: int| 0 <= p < self.periods.len() ==> (#[trigger] self.periods[p]).number == p
    }
}

impl ClassView {
    /// Every day, and every period below it, carries its position as its
    /// number.
    pub open spec fn numbered(self) -> bool {
        forall|d: int|
            0 <= d < self.days.len() ==> (#[trigger] self.days[d]).number == d
                && self.days[d].numbered()
    }
}

impl GradeView {
    /// Every class, and everything below it, carries its position as its
    /// number.
    pub open spec fn numbered(self) -> bool {
        forall|c: int|
            0 <= c < self.classes.len() ==> (#[trigger] self.classes[c]).number == c
                && self.classes[c].numbered()
    }
}

impl SchoolView {
    /// Every level of the timetable is numbered from zero without gaps.
    pub open spec fn numbered(self) -> bool {
        forall|g: int|
            0 <= g < self.grades.len() ==> (#[trigger] self.grades[g]).number == g
                && self.grades[g].numbered()
    }
}

/// The label of a weekday, Monday first. A day's weekday is its number
/// taken modulo seven.
pub open spec fn weekday_label(day: int) -> Seq<char> {
    let d = day % 7;
    if d == 0 {
        "월요일"@
    } else if d == 1 {
        "화요일"@
    } else if d == 2 {
        "수요일"@
    } else if d == 3 {
        "목요일"@
    } else if d == 4 {
        "금요일"@
    } else if d == 5 {
        "토요일"@
    } else {
        "일요일"@
    }
}

/// One period: its number, the subject taught and the teacher. Both texts
/// are empty where no class is held.
#[derive(Debug, PartialEq, Eq)]
pub struct Period {
    pub period_num: u8,
    pub subject: String,
    pub teacher: String,
}

impl View for Period {
    type V = PeriodView;

    open spec fn view(&self) -> PeriodView {
        PeriodView { number: self.period_num as int, subject: self.subject@, teacher: self.teacher@ }
    }
}

/// The periods of a list, as mathematical values.
pub open spec fn period_views(periods: Seq<Period>) -> Seq<PeriodView> {
    periods.map_values(|p: Period| p@)
}

impl Clone for Period {
    fn clone(&self) -> (out: Self)
        ensures
            out@ == self@,
    {
        Period {
            period_num: self.period_num,
            subject: self.subject.clone(),
            teacher: self.teacher.clone(),
        }
    }
}

impl Period {
    /// The text of a period: its number, then the teacher and the subject,
    /// each on a line of its own.
    pub open spec fn label_text(view: PeriodView) -> Seq<char> {
        decimal(view.number as nat) + "교시\n선생님: "@ + view.teacher + "\n과목: "@ + view.subject
    }

    /// The period as a text to show.
    pub fn label(&self) -> (out: String)
        ensures
            out@ == Self::label_text(self@),
    {
        let mut out = String::new();
        push_decimal(&mut out, self.period_num as u32);
        out.append("교시\n선생님: ");
        out.append(self.teacher.as_str());
        out.append("\n과목: ");
        out.append(self.subject.as_str());
        assert(out@ =~= Self::label_text(self@));
        out
    }
}

fn clone_periods(periods: &Vec<Period>) -> (out: Vec<Period>)
    ensures
        period_views(out@) == period_views(periods@),
{
    let mut out: Vec<Period> = Vec::new();
    let mut i: usize = 0;
    while i < periods.len()
        invariant
            i <= periods.len(),
            out@.len() == i,
            forall|k: int| 0 <= k < i ==> (#[trigger] out@[k])@ == periods@[k]@,
        decreases periods.len() - i,
    {
        out.push(periods[i].clone());
        i = i + 1;
    }
    assert(period_views(out@) =~= period_views(periods@));
    out
}

/// One day of a class.
#[derive(Debug, PartialEq, Eq)]
pub struct Day {
    pub(crate) day_num: u8,
    pub periods: Vec<Period>,
}

impl View for Day {
    type V = DayView;

    open(crate) spec fn view(&self) -> DayView {
        DayView { number: self.day_num as int, periods: period_views(self.periods@) }
    }
}

/// The days of a list, as mathematical values.
pub open spec fn day_views(days: Seq<Day>) -> Seq<DayView> {
    days.map_values(|d: Day| d@)
}

impl Clone for Day {
    fn clone(&self) -> (out: Self)
        ensures
            out@ == self@,
    {
        Day { day_num: self.day_num, periods: clone_periods(&self.periods) }
    }
}

impl Day {
    /// A day without periods.
    pub fn new(day_num: u8) -> (out: Day)
        ensures
            out@ == (DayView { number: day_num as int, periods: Seq::empty() }),
    {
        let out = Day { day_num, periods: Vec::new() };
        assert(out@.periods =~= Seq::empty());
        out
    }

    /// The number that the day was made with.
    pub fn number(&self) -> (n: u8)
        ensures
            n == self@.number,
    {
        self.day_num
    }

    /// Adds a period at the end of the day.
    pub fn add_period(&mut self, period: Period)
        ensures
            final(self)@ == (DayView {
                number: old(self)@.number,
                periods: old(self)@.periods.push(period@),
            }),
    {
        self.periods.push(period);
        assert(period_views(self.periods@) =~= period_views(old(self).periods@).push(period@));
    }

    /// The period with the given number, the first being number one.
    pub fn period(&self, period: usize) -> (out: Period)
        requires
            1 <= period <= self@.periods.len(),
        ensures
            out@ == self@.periods[period - 1],
    {
        self.periods[period - 1].clone()
    }

    /// All periods of the day, in order.
    pub fn list_periods(&self) -> (out: Vec<Period>)
        ensures
            period_views(out@) == self@.periods,
    {
        clone_periods(&self.periods)
    }

    /// The weekday of the day.
    pub fn label(&self) -> (out: String)
        ensures
            out@ == weekday_label(self@.number),
    {
        let d: u8 = self.day_num % 7;
        let name: &str = if d == 0 {
            "월요일"
        } else if d == 1 {
            "화요일"
        } else if d == 2 {
            "수요일"
        } else if d == 3 {
            "목요일"
        } else if d == 4 {
            "금요일"
        } else if d == 5 {
            "토요일"
        } else {
            "일요일"
        };
        String::from_str(name)
    }
}

fn clone_days(days: &Vec<Day>) -> (out: Vec<Day>)
    ensures
        day_views(out@) == day_views(days@),
{
    let mut out: Vec<Day> = Vec::new();
    let mut i: usize = 0;
    while i < days.len()
        invariant
            i <= days.len(),
            out@.len() == i,
            forall|k: int| 0 <= k < i ==> (#[trigger] out@[k])@ == days@[k]@,
        decreases days.len() - i,
    {
        out.push(days[i].clone());
        i = i + 1;
    }
    assert(day_views(out@) =~= day_views(days@));
    out
}

/// One class of a grade.
#[derive(Debug, PartialEq, Eq)]
pub struct Class {
    pub class_num: u8,
    pub(crate) days: Vec<Day>,
}

impl View for Class {
    type V = ClassView;

    open(crate) spec fn view(&self) -> ClassView {
        ClassView { number: self.class_num as int, days: day_views(self.days@) }
    }
}

/// The classes of a list, as mathematical values.
pub open spec fn class_views(classes: Seq<Class>) -> Seq<ClassView> {
    classes.map_values(|c: Class| c@)
}

impl Clone for Class {
    fn clone(&self) -> (out: Self)
        ensures
            out@ == self@,
    {
        Class { class_num: self.class_num, days: clone_days(&self.days) }
    }
}

impl Class {
    /// A class without days.
    pub fn new(class_num: u8) -> (out: Class)
        ensures
            out@ == (ClassView { number: class_num as int, days: Seq::empty() }),
    {
        let out = Class { class_num, days: Vec::new() };
        assert(out@.days =~= Seq::empty());
        out
    }

    /// The number that the class was made with.
    pub fn number(&self) -> (n: u8)
        ensures
            n == self@.number,
    {
        self.class_num
    }

    /// Adds a day at the end of the class's week.
    pub fn add_day(&mut self, day: Day)
        ensures
            final(self)@ == (ClassView { number: old(self)@.number, days: old(self)@.days.push(day@) }),
    {
        self.days.push(day);
        assert(day_views(self.days@) =~= day_views(old(self).days@).push(day@));
    }

    /// The day with the given number, the first being number one.
    pub fn day(&self, day: usize) -> (out: Day)
        requires
            1 <= day <= self@.days.len(),
        ensures
            out@ == self@.days[day - 1],
    {
        self.days[day - 1].clone()
    }

    /// All days of the class, in order.
    pub fn list_days(&self) -> (out: Vec<Day>)
        ensures
            day_views(out@) == self@.days,
    {
        clone_days(&self.days)
    }

    /// The class as a text to show: its number and the word for a class.
    pub fn label(&self) -> (out: String)
        ensures
            out@ == decimal(self@.number as nat) + " 반"@,
    {
        let mut out = String::new();
        push_decimal(&mut out, self.class_num as u32);
        out.append(" 반");
        out
    }
}

fn clone_classes(classes: &Vec<Class>) -> (out: Vec<Class>)
    ensures
        class_views(out@) == class_views(classes@),
{
    let mut out: Vec<Class> = Vec::new();
    let mut i: usize = 0;
    while i < classes.len()
        invariant
            i <= classes.len(),
            out@.len() == i,
            forall|k: int| 0 <= k < i ==> (#[trigger] out@[k])@ == classes@[k]@,
        decreases classes.len() - i,
    {
        out.push(classes[i].clone());
        i = i + 1;
    }
    assert(class_views(out@) =~= class_views(classes@));
    out
}

/// One grade of a school.
#[derive(Debug, PartialEq, Eq)]
pub struct Grade {
    pub grade_num: u8,
    pub(crate) classes: Vec<Class>,
}

impl View for Grade {
    type V = GradeView;

    open(crate) spec fn view(&self) -> GradeView {
        GradeView { number: self.grade_num as int, classes: class_views(self.classes@) }
    }
}

/// The grades of a list, as mathematical values.
pub open spec fn grade_views(grades: Seq<Grade>) -> Seq<GradeView> {
    grades.map_values(|g: Grade| g@)
}

impl Clone for Grade {
    fn clone(&self) -> (out: Self)
        ensures
            out@ == self@,
    {
        Grade { grade_num: self.grade_num, classes: clone_classes(&self.classes) }
    }
}

impl Grade {
    /// A grade without classes.
    pub fn new(grade_num: u8) -> (out: Grade)
        ensures
            out@ == (GradeView { number: grade_num as int, classes: Seq::empty() }),
    {
        let out = Grade { grade_num, classes: Vec::new() };
        assert(out@.classes =~= Seq::empty());
        out
    }

    /// The number that the grade was made with.
    pub fn number(&self) -> (n: u8)
        ensures
            n == self@.number,
    {
        self.grade_num
    }

    /// Adds a class at the end of the grade.
    pub fn add_class(&mut self, class: Class)
        ensures
            final(self)@ == (GradeView {
                number: old(self)@.number,
                classes: old(self)@.classes.push(class@),
            }),
    {
        self.classes.push(class);
        assert(class_views(self.classes@) =~= class_views(old(self).classes@).push(class@));
    }

    /// The class with the given number, the first being number one.
    pub fn class(&self, class: usize) -> (out: Class)
        requires
            1 <= class <= self@.classes.len(),
        ensures
            out@ == self@.classes[class - 1],
    {
        self.classes[class - 1].clone()
    }

    /// All classes of the grade, in order.
    pub fn list_classes(&self) -> (out: Vec<Class>)
        ensures
            class_views(out@) == self@.classes,
    {
        clone_classes(&self.classes)
    }

    /// The grade as a text to show: its number and the word for a grade.
    pub fn label(&self) -> (out: String)
        ensures
            out@ == decimal(self@.number as nat) + " 학년"@,
    {
        let mut out = String::new();
        push_decimal(&mut out, self.grade_num as u32);
        out.append(" 학년");
        out
    }
}

fn clone_grades(grades: &Vec<Grade>) -> (out: Vec<Grade>)
    ensures
        grade_views(out@) == grade_views(grades@),
{
    let mut out: Vec<Grade> = Vec::new();
    let mut i: usize = 0;
    while i < grades.len()
        invariant
            i <= grades.len(),
            out@.len() == i,
            forall|k: int| 0 <= k < i ==> (#[trigger] out@[k])@ == grades@[k]@,
        decreases grades.len() - i,
    {
        out.push(grades[i].clone());
        i = i + 1;
    }
    assert(grade_views(out@) =~= grade_views(grades@));
    out
}

/// The timetable of a whole school.
#[derive(Debug, PartialEq, Eq)]
pub struct SchoolData {
    pub name: String,
    pub(crate) grades: Vec<Grade>,
}

impl View for SchoolData {
    type V = SchoolView;

    open(crate) spec fn view(&self) -> SchoolView {
        SchoolView { name: self.name@, grades: grade_views(self.grades@) }
    }
}

impl Clone for SchoolData {
    fn clone(&self) -> (out: Self)
        ensures
            out@ == self@,
    {
        SchoolData { name: self.name.clone(), grades: clone_grades(&self.grades) }
    }
}

impl SchoolData {
    /// A school without grades.
    pub fn new(name: String) -> (out: SchoolData)
        ensures
            out@ == (SchoolView { name: name@, grades: Seq::empty() }),
    {
        let out = SchoolData { name, grades: Vec::new() };
        assert(out@.grades =~= Seq::empty());
        out
    }

    /// Adds a grade at the end of the school.
    pub fn add_grade(&mut self, grade: Grade)
        ensures
            final(self)@ == (SchoolView {
                name: old(self)@.name,
                grades: old(self)@.grades.push(grade@),
            }),
    {
        self.grades.push(grade);
        assert(grade_views(self.grades@) =~= grade_views(old(self).grades@).push(grade@));
    }

    /// The grade with the given number, the first being number one.
    pub fn grade(&self, grade: usize) -> (out: Grade)
        requires
            1 <= grade <= self@.grades.len(),
        ensures
            out@ == self@.grades[grade - 1],
    {
        self.grades[grade - 1].clone()
    }

    /// All grades of the school, in order.
    pub fn list_grades(&self) -> (out: Vec<Grade>)
        ensures
            grade_views(out@) == self@.grades,
    {
        clone_grades(&self.grades)
    }

    /// The school as a text to show: its name.
    pub fn label(&self) -> (out: String)
        ensures
            out@ == self@.name,
    {
        self.name.clone()
    }
}

} // verus!
