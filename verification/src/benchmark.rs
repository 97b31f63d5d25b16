//! Salary statistics over a list of vacancies, and vacancies made up at
//! random to run them on.

use crate::agency::{
    Education, ExperienceView, Vacancy, VacancyCreationError, VacancyTrait, VacancyView,
};
use crate::decimal::{lemma_decimal_round_trip, render_decimal};
use crate::random::{random_in_range, random_u16};
use crate::text::lowercase;
use vstd::prelude::*;
use vstd::string::*;

verus! {

/// The sum of the salaries of all vacancies.
pub open spec fn total_salary(vacancies: Seq<Vacancy>) -> nat
    decreases vacancies.len(),
{
    if vacancies.len() == 0 {
        0
    } else {
        total_salary(vacancies.drop_last()) + vacancies.last()@.salary
    }
}

/// The higher of two salaries.
pub open spec fn higher(current: nat, salary: nat) -> nat {
    if salary > current {
        salary
    } else {
        current
    }
}

/// The highest salary among the vacancies; zero if there are none.
pub open spec fn highest_salary(vacancies: Seq<Vacancy>) -> nat
    decreases vacancies.len(),
{
    if vacancies.len() == 0 {
        0
    } else {
        higher(highest_salary(vacancies.drop_last()), vacancies.last()@.salary)
    }
}

/// The salaries of the first vacancies sum to no more than those of all.
proof fn lemma_total_salary_prefix(vacancies: Seq<Vacancy>, k: int)
    requires
        0 <= k <= vacancies.len(),
    ensures
        total_salary(vacancies.take(k)) <= total_salary(vacancies),
    decreases vacancies.len(),
{
    if k == vacancies.len() {
        assert(vacancies.take(k) =~= vacancies);
    } else {
        assert(vacancies.drop_last().take(k) =~= vacancies.take(k));
        lemma_total_salary_prefix(vacancies.drop_last(), k);
    }
}

/// The highest salary is no lower than any salary, and some vacancy pays
/// it, unless there is no vacancy.
pub proof fn lemma_highest_salary(vacancies: Seq<Vacancy>)
    ensures
        forall|i: int|
            0 <= i < vacancies.len() ==> (#[trigger] vacancies[i])@.salary <= highest_salary(
                vacancies,
            ),
        vacancies.len() > 0 ==> exists|i: int|
            0 <= i < vacancies.len() && (#[trigger] vacancies[i])@.salary == highest_salary(
                vacancies,
            ),
    decreases vacancies.len(),
{
    if vacancies.len() > 0 {
        let rest = vacancies.drop_last();
        let last: int = vacancies.len() - 1;
        lemma_highest_salary(rest);
        assert forall|i: int| 0 <= i < vacancies.len() implies (#[trigger] vacancies[i])@.salary
            <= highest_salary(vacancies) by {
            if i < last {
                assert(rest[i] == vacancies[i]);
            }
        }
        if highest_salary(vacancies) != vacancies[last]@.salary {
            let i = choose|i: int|
                0 <= i < rest.len() && (#[trigger] rest[i])@.salary == highest_salary(rest);
            assert(vacancies[i]@.salary == highest_salary(vacancies));
        }
    }
}

/// The higher of the highest salary so far and one more salary.
pub fn higher_salary(current: usize, salary: usize) -> (highest: usize)
    ensures
        highest == higher(current as nat, salary as nat),
{
    if salary > current {
        salary
    } else {
        current
    }
}

/// The average salary, rounded down.
pub fn avg_salary_sequential(arr: &[Vacancy]) -> (average: usize)
    requires
        arr@.len() > 0,
        total_salary(arr@) <= usize::MAX,
    ensures
        average == total_salary(arr@) / arr@.len(),
{
    let mut sum_salaries: usize = 0;
    let mut i: usize = 0;
    while i < arr.len()
        invariant
            i <= arr@.len(),
            sum_salaries == total_salary(arr@.take(i as int)),
            total_salary(arr@) <= usize::MAX,
        decreases arr@.len() - i,
    {
        proof {
            assert(arr@.take(i + 1).drop_last() =~= arr@.take(i as int));
            lemma_total_salary_prefix(arr@, i + 1);
        }
        sum_salaries = sum_salaries + arr[i].salary();
        i += 1;
    }
    assert(arr@.take(i as int) =~= arr@);
    sum_salaries / arr.len()
}

/// The highest salary; zero for an empty list.
pub fn max_salary_sequential(arr: &[Vacancy]) -> (highest: usize)
    ensures
        highest == highest_salary(arr@),
{
    let mut max_salary: usize = 0;
    let mut i: usize = 0;
    while i < arr.len()
        invariant
            i <= arr@.len(),
            max_salary == highest_salary(arr@.take(i as int)),
        decreases arr@.len() - i,
    {
        proof {
            assert(arr@.take(i + 1).drop_last() =~= arr@.take(i as int));
        }
        max_salary = higher_salary(max_salary, arr[i].salary());
        i += 1;
    }
    assert(arr@.take(i as int) =~= arr@);
    max_salary
}

/// The vacancy made up from two numbers: a company that offers `salary`
/// and asks for `years` of experience in IT and for no education. The
/// numbers go through the vacancy form as texts, as any others would.
///
/// Both numbers are read back as they were written. The empty education
/// text is lowercased like any other, so whether the form accepts it rests
/// on the lowercase form of the empty text being a label.
pub fn sample_vacancy(salary: usize, years: u16) -> (result: Result<
    Vacancy,
    VacancyCreationError,
>)
    ensures
        match result {
            Ok(vacancy) => {
                &&& Education::with_label(lowercase(""@)) matches Some(education)
                &&& vacancy@ == (VacancyView {
                    company_name: "Company"@,
                    specialization: "Specialization"@,
                    conditions: "Conditions"@,
                    salary: salary as nat,
                    experience: Some(
                        ExperienceView {
                            specialization_name: "IT"@,
                            work_exp_years: years as nat,
                        },
                    ),
                    education,
                })
            },
            Err(error) => {
                &&& Education::with_label(lowercase(""@)) is None
                &&& error matches VacancyCreationError::ParsingEducationString(refused)
                &&& refused@ == ""@
            },
        },
{
    let salary_text = render_decimal(salary as u64);
    let years_text = render_decimal(years as u64);
    proof {
        lemma_decimal_round_trip(salary as nat);
        lemma_decimal_round_trip(years as nat);
    }
    Vacancy::new(
        "Company",
        "Specialization",
        "Conditions",
        salary_text.as_str(),
        Some("IT".to_owned()),
        years_text.as_str(),
        "",
    )
}

/// A vacancy made up at random: the salary is drawn from 0 up to, but not
/// including, 10000, the years of experience from all 16-bit numbers.
/// Whatever is drawn, the result is that of [`sample_vacancy`] on the two
/// numbers.
pub fn generate_vacancy() -> (result: Result<Vacancy, VacancyCreationError>)
    ensures
        match result {
            Ok(vacancy) => {
                &&& Education::with_label(lowercase(""@)) matches Some(education)
                &&& vacancy@.salary < 10000
                &&& vacancy@.company_name == "Company"@
                &&& vacancy@.specialization == "Specialization"@
                &&& vacancy@.conditions == "Conditions"@
                &&& vacancy@.experience matches Some(experience)
                &&& experience.specialization_name == "IT"@
                &&& experience.work_exp_years <= u16::MAX
                &&& vacancy@.education == education
            },
            Err(error) => {
                &&& Education::with_label(lowercase(""@)) is None
                &&& error matches VacancyCreationError::ParsingEducationString(refused)
                &&& refused@ == ""@
            },
        },
{
    let salary: u64 = random_in_range(0, 10000);
    let years: u16 = random_u16();
    sample_vacancy(salary as usize, years)
}

} // verus!
