//! Vacancies offered through an employment agency: how one is created from
//! the texts of a form, and what can be read from it.

use crate::decimal::{bounded_decimal_value, decimal_text, parse_decimal, render_decimal};
use crate::text::{lowercase, same_text, to_lowercase};
use vstd::prelude::*;
use vstd::string::*;

verus! {

/// The education a vacancy asks for, from none to a university degree.
#[derive(Debug, PartialEq, Eq, Clone, PartialOrd, Ord, Structural)]
pub enum Education {
    NoEducation,
    School,
    University,
}

impl Education {
    /// The text an education level is written as.
    pub open spec fn label(self) -> Seq<char> {
        match self {
            Education::NoEducation => ""@,
            Education::School => "school"@,
            Education::University => "university"@,
        }
    }

    /// The education level written as `label`, if there is one.
    pub open spec fn with_label(label: Seq<char>) -> Option<Education> {
        if label == Education::NoEducation.label() {
            Some(Education::NoEducation)
        } else if label == Education::School.label() {
            Some(Education::School)
        } else if label == Education::University.label() {
            Some(Education::University)
        } else {
            None
        }
    }

    /// Reads an education level from its label. The label is matched as it
    /// stands: `""`, `"school"` and `"university"` are the only ones.
    pub fn from_label(label: &str) -> (education: Option<Education>)
        ensures
            education == Education::with_label(label@),
    {
        if same_text(label, "") {
            Some(Education::NoEducation)
        } else if same_text(label, "school") {
            Some(Education::School)
        } else if same_text(label, "university") {
            Some(Education::University)
        } else {
            None
        }
    }

    /// The label of this education level.
    pub fn to_string(&self) -> (text: String)
        ensures
            text@ == self.label(),
    {
        match self {
            Education::NoEducation => "".to_owned(),
            Education::School => "school".to_owned(),
            Education::University => "university".to_owned(),
        }
    }
}

/// The field of work a vacancy asks experience in, and for how long.
#[derive(Debug, Clone)]
struct WorkerSpecialization {
    specialization_name: String,
    work_exp_years: u16,
}

/// What a vacancy asks of the worker.
#[derive(Debug, Clone)]
struct WorkerRequirements {
    specialization: Option<WorkerSpecialization>,
    education: Education,
}

/// A vacancy: who offers it, for what work, under which conditions, at what
/// salary, and what it asks of the worker.
#[derive(Debug, Clone)]
pub struct Vacancy {
    company_name: String,
    specialization: String,
    conditions: String,
    sallary: usize,
    worker_requirements: WorkerRequirements,
}

/// The experience a vacancy asks for, as plain values.
pub struct ExperienceView {
    pub specialization_name: Seq<char>,
    pub work_exp_years: nat,
}

/// A vacancy as plain values.
pub struct VacancyView {
    pub company_name: Seq<char>,
    pub specialization: Seq<char>,
    pub conditions: Seq<char>,
    pub salary: nat,
    pub experience: Option<ExperienceView>,
    pub education: Education,
}

impl VacancyView {
    /// The one-line description of a vacancy: company, specialization,
    /// conditions in brackets, salary in dollars, education label.
    pub open spec fn text(self) -> Seq<char> {
        self.company_name + ": "@ + self.specialization + "("@ + self.conditions + ") - "@
            + decimal_text(self.salary) + "$ "@ + self.education.label()
    }
}

impl View for Vacancy {
    type V = VacancyView;

    closed spec fn view(&self) -> VacancyView {
        VacancyView {
            company_name: self.company_name@,
            specialization: self.specialization@,
            conditions: self.conditions@,
            salary: self.sallary as nat,
            experience: match self.worker_requirements.specialization {
                Some(w) => Some(
                    ExperienceView {
                        specialization_name: w.specialization_name@,
                        work_exp_years: w.work_exp_years as nat,
                    },
                ),
                None => None,
            },
            education: self.worker_requirements.education,
        }
    }
}

/// What can be read from a vacancy.
pub trait VacancyTrait {
    fn company_name(&self) -> &str;

    fn specialization(&self) -> &str;

    fn education(&self) -> &Education;

    fn salary(&self) -> usize;
}

impl VacancyTrait for Vacancy {
    fn salary(&self) -> (salary: usize)
        ensures
            salary == self@.salary,
    {
        self.sallary
    }

    fn company_name(&self) -> (name: &str)
        ensures
            name@ == self@.company_name,
    {
        self.company_name.as_str()
    }

    fn specialization(&self) -> (name: &str)
        ensures
            name@ == self@.specialization,
    {
        self.specialization.as_str()
    }

    fn education(&self) -> (education: &Education)
        ensures
            *education == self@.education,
    {
        &self.worker_requirements.education
    }
}

/// Why a vacancy could not be created. Each variant carries the text that
/// was refused.
#[derive(Debug)]
pub enum VacancyCreationError {
    ParsingEducationString(String),
    ParsingSallary(String),
    ParsingExperience(String),
}

impl Vacancy {
    /// Creates a vacancy from the texts of a form.
    ///
    /// The years of experience must denote a number up to `u16::MAX` and the
    /// salary one up to `usize::MAX`, each written as an optional `'+'` and
    /// decimal digits. The education text is lowercased and must then be one
    /// of the labels `""`, `"school"`, `"university"`. The three texts are
    /// checked in this order and the first that fails is reported. The years
    /// of experience are kept only together with a specialization name.
    pub fn new(
        company_name: &str,
        specialization: &str,
        conditions: &str,
        sallary_string: &str,
        worker_specialization_name: Option<String>,
        work_exp_years_string: &str,
        education_string: &str,
    ) -> (result: Result<Self, VacancyCreationError>)
        ensures
            match result {
                Ok(vacancy) => {
                    &&& bounded_decimal_value(work_exp_years_string@, u16::MAX as nat) matches Some(
                        years,
                    )
                    &&& bounded_decimal_value(sallary_string@, usize::MAX as nat) matches Some(
                        salary,
                    )
                    &&& Education::with_label(lowercase(education_string@)) matches Some(education)
                    &&& vacancy@ == (VacancyView {
                        company_name: company_name@,
                        specialization: specialization@,
                        conditions: conditions@,
                        salary,
                        experience: match worker_specialization_name {
                            Some(name) => Some(
                                ExperienceView {
                                    specialization_name: name@,
                                    work_exp_years: years,
                                },
                            ),
                            None => None,
                        },
                        education,
                    })
                },
                Err(VacancyCreationError::ParsingExperience(refused)) => {
                    &&& bounded_decimal_value(work_exp_years_string@, u16::MAX as nat) is None
                    &&& refused@ == work_exp_years_string@
                },
                Err(VacancyCreationError::ParsingSallary(refused)) => {
                    &&& bounded_decimal_value(work_exp_years_string@, u16::MAX as nat) is Some
                    &&& bounded_decimal_value(sallary_string@, usize::MAX as nat) is None
                    &&& refused@ == sallary_string@
                },
                Err(VacancyCreationError::ParsingEducationString(refused)) => {
                    &&& bounded_decimal_value(work_exp_years_string@, u16::MAX as nat) is Some
                    &&& bounded_decimal_value(sallary_string@, usize::MAX as nat) is Some
                    &&& Education::with_label(lowercase(education_string@)) is None
                    &&& refused@ == education_string@
                },
            },
    {
        let work_exp_years: u16 = match parse_decimal(work_exp_years_string, 0xffff) {
            Some(years) => years as u16,
            None => {
                return Err(
                    VacancyCreationError::ParsingExperience(work_exp_years_string.to_owned()),
                );
            },
        };
        let worker_specialization = match worker_specialization_name {
            Some(specialization_name) => Some(
                WorkerSpecialization { specialization_name, work_exp_years },
            ),
            None => None,
        };
        let sallary: usize = match parse_decimal(sallary_string, usize::MAX as u64) {
            Some(value) => value as usize,
            None => {
                return Err(VacancyCreationError::ParsingSallary(sallary_string.to_owned()));
            },
        };
        let lowered = to_lowercase(education_string);
        let education = match Education::from_label(lowered.as_str()) {
            Some(education) => education,
            None => {
                return Err(
                    VacancyCreationError::ParsingEducationString(education_string.to_owned()),
                );
            },
        };
        Ok(
            Vacancy {
                company_name: company_name.to_owned(),
                specialization: specialization.to_owned(),
                conditions: conditions.to_owned(),
                sallary,
                worker_requirements: WorkerRequirements {
                    specialization: worker_specialization,
                    education,
                },
            },
        )
    }

    /// The conditions of work.
    pub fn conditions(&self) -> (conditions: &str)
        ensures
            conditions@ == self@.conditions,
    {
        self.conditions.as_str()
    }

    /// The field of work in which experience is asked for, and for how many
    /// years, if the vacancy asks for any.
    pub fn experience(&self) -> (experience: Option<(&str, u16)>)
        ensures
            match experience {
                Some((name, years)) => self@.experience == Some(
                    ExperienceView { specialization_name: name@, work_exp_years: years as nat },
                ),
                None => self@.experience is None,
            },
    {
        match &self.worker_requirements.specialization {
            Some(w) => Some((w.specialization_name.as_str(), w.work_exp_years)),
            None => None,
        }
    }

    /// The one-line description of this vacancy.
    pub fn to_string(&self) -> (text: String)
        ensures
            text@ == self@.text(),
    {
        let mut text = self.company_name.clone();
        text.append(": ");
        text.append(self.specialization.as_str());
        text.append("(");
        text.append(self.conditions.as_str());
        text.append(") - ");
        let salary = render_decimal(self.sallary as u64);
        text.append(salary.as_str());
        text.append("$ ");
        let education = self.worker_requirements.education.to_string();
        text.append(education.as_str());
        text
    }
}

} // verus!
