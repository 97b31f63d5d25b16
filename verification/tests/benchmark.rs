use chainqueue::agency::{Education, Vacancy, VacancyCreationError, VacancyTrait};
use chainqueue::benchmark::{
    avg_salary_sequential, generate_vacancy, higher_salary, max_salary_sequential, sample_vacancy,
};

fn with_salaries(salaries: &[usize]) -> Vec<Vacancy> {
    salaries
        .iter()
        .map(|salary| {
            Vacancy::new("C", "S", "K", &salary.to_string(), None, "0", "").expect("valid texts")
        })
        .collect()
}

#[test]
fn average_salary_is_rounded_down() {
    assert_eq!(avg_salary_sequential(&with_salaries(&[10])), 10);
    assert_eq!(avg_salary_sequential(&with_salaries(&[1, 2])), 1);
    assert_eq!(avg_salary_sequential(&with_salaries(&[100, 200, 301])), 200);
    assert_eq!(avg_salary_sequential(&with_salaries(&[0, 0, 0])), 0);
    assert_eq!(avg_salary_sequential(&with_salaries(&[7, 8, 9, 10])), 8);
}

#[test]
fn highest_salary_is_found() {
    assert_eq!(max_salary_sequential(&with_salaries(&[])), 0);
    assert_eq!(max_salary_sequential(&with_salaries(&[5])), 5);
    assert_eq!(max_salary_sequential(&with_salaries(&[1, 9, 3])), 9);
    assert_eq!(max_salary_sequential(&with_salaries(&[9, 9, 1])), 9);
    assert_eq!(max_salary_sequential(&with_salaries(&[0, 0])), 0);
    assert_eq!(max_salary_sequential(&with_salaries(&[1, 2, 3, 4000])), 4000);
}

#[test]
fn higher_of_two_salaries() {
    assert_eq!(higher_salary(0, 5), 5);
    assert_eq!(higher_salary(5, 0), 5);
    assert_eq!(higher_salary(5, 5), 5);
    assert_eq!(higher_salary(usize::MAX, 1), usize::MAX);
}

#[test]
fn sample_vacancy_carries_the_two_numbers() {
    let vacancy = sample_vacancy(1234, 7).expect("the empty education text is accepted");
    assert_eq!(vacancy.company_name(), "Company");
    assert_eq!(vacancy.specialization(), "Specialization");
    assert_eq!(vacancy.salary(), 1234);
    assert_eq!(*vacancy.education(), Education::NoEducation);
    assert_eq!(vacancy.to_string(), "Company: Specialization(Conditions) - 1234$ ");
    let extreme = sample_vacancy(usize::MAX, u16::MAX).expect("every number is read back");
    assert_eq!(extreme.salary(), usize::MAX);
    assert_eq!(sample_vacancy(0, 0).expect("zero is a number").salary(), 0);
}

#[test]
fn generated_vacancies_have_a_salary_below_ten_thousand() {
    let mut salaries = vec![];
    for _ in 0..300 {
        let vacancy: Result<Vacancy, VacancyCreationError> = generate_vacancy();
        let vacancy = vacancy.expect("Should generate fine");
        assert!(vacancy.salary() < 10000);
        assert_eq!(vacancy.company_name(), "Company");
        assert_eq!(*vacancy.education(), Education::NoEducation);
        salaries.push(vacancy.salary());
    }
    // Three hundred draws from ten thousand numbers are not all the same.
    assert!(salaries.iter().any(|salary| *salary != salaries[0]));
    assert_eq!(salaries.iter().copied().max(), Some(max_salary_sequential(
        &with_salaries(&salaries),
    )));
}
