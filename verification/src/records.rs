//! Typed records the portal pages are parsed into. Each is produced fresh
//! per retrieval call by the page-specific extraction layer and handed to
//! the client application; none is cached.
use std::collections::HashMap;

use vstd::prelude::*;

verus! {

/// One cell of the weekly course schedule.
#[derive(Debug, Clone, PartialEq)]
pub struct CourseSchedule {
    pub id: String,
    pub name: String,
    pub teacher: String,
    pub time_range: String,
    pub day_of_week: String,
    pub section: usize,
    pub weeks: String,
    pub classroom: String,
    pub duration: String,
}

/// One row of the extracurricular credit list.
#[derive(Debug, Clone, PartialEq)]
pub struct DEKTList {
    pub id: String,
    pub semester: String,
    pub category: String,
    pub sub_category: String,
    pub activity_name: String,
    pub credit: String,
    pub operation_id: String,
}

/// One per-category total of the extracurricular credit page.
#[derive(Debug, Clone, PartialEq)]
pub struct DEKTTotal {
    pub category: String,
    pub total_credit: String,
}

/// The label-to-value fields of one extracurricular activity's detail page.
#[derive(Debug, Clone)]
pub struct DEKTDetail(pub HashMap<String, String>);

/// The extracurricular credit page: its rows and its per-category totals.
#[derive(Debug, Clone, PartialEq)]
pub struct DEKT {
    pub list: Vec<DEKTList>,
    pub total: Vec<DEKTTotal>,
}

/// One category row of the credit summary table.
#[derive(Debug, Clone, PartialEq)]
pub struct CreditInfo {
    pub category: String,
    pub required: i32,
    pub limited: i32,
    pub elective: i32,
    pub public: i32,
    pub total: i32,
}

/// One row of the examination roster.
#[derive(Debug, Clone, PartialEq)]
pub struct ExamSchedule {
    pub id: u32,
    pub course_code: String,
    pub course_name: String,
    pub exam_time: String,
    pub exam_location: String,
}

/// The student profile page's fields.
#[derive(Debug, Clone, PartialEq)]
pub struct StudentInfo {
    pub name: String,
    pub gender: String,
    pub student_id: String,
    pub department: String,
    pub major: String,
    pub class_name: String,
    pub admission_date: String,
    pub admission_number: String,
    pub id_number: String,
}

/// One selectable semester, as a key shown to the user and the value the
/// portal expects back.
#[derive(Debug, Clone, PartialEq)]
pub struct SemesterInfo {
    pub key: String,
    pub value: String,
}

/// Pairs the two parts of the extracurricular credit page into one record.
pub fn parse_dekt(list: Vec<DEKTList>, total: Vec<DEKTTotal>) -> (r: Result<DEKT, String>)
    ensures
        r is Ok,
        r matches Ok(d) ==> d.list == list && d.total == total,
{
    Ok(DEKT { list, total })
}

} // verus!
